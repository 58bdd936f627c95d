//! The kinds of store and their addresses, and the values that the store
//! keeps as text: artist type and gender.

use vstd::prelude::*;
use vstd::string::*;

verus! {

/// The kinds of store.
#[derive(Clone, Copy, Debug, PartialEq, Eq, Structural)]
pub enum DatabaseType {
    MySQL,
    PostgreSQL,
    SQLite,
}

/// A text that names no kind of store.
pub struct UnrecognizedDatabase {
    /// The text as it was given.
    pub text: String,
}

/// A store that is reached through a server was asked for without a
/// password.
#[derive(Clone, Copy, Debug, PartialEq, Eq, Structural)]
pub struct MissingPassword;

/// Which of the regular expressions `patterns` match `text`, one flag for
/// each, as `regex::RegexSet` decides; `None` where one of them is no
/// regular expression.
pub uninterp spec fn set_matches(patterns: Seq<Seq<char>>, text: Seq<char>) -> Option<Seq<bool>>;

/// The texts of a list of string slices.
pub open spec fn slices(values: Seq<&'static str>) -> Seq<Seq<char>> {
    values.map_values(|text: &'static str| text@)
}

/// `regex::RegexSet::new` on the patterns, `RegexSet::matches` on the text,
/// and `SetMatches::matched` for each pattern in turn.
#[verifier::external_body]
fn regex_set_matches(patterns: &Vec<&'static str>, text: &str) -> (out: Option<Vec<bool>>)
    ensures
        match out {
            Some(flags) => set_matches(slices(patterns@), text@) == Some(flags@) && flags@.len()
                == patterns@.len(),
            None => set_matches(slices(patterns@), text@) is None,
        },
{
    match regex::RegexSet::new(patterns.iter()) {
        Ok(set) => {
            let found = set.matches(text);
            Some((0..set.len()).map(|i| found.matched(i)).collect())
        },
        Err(_) => None,
    }
}

/// The patterns for the names of the kinds of store, in the order MySQL,
/// PostgreSQL, SQLite.
pub open spec fn database_patterns() -> Seq<Seq<char>> {
    seq![
        "(?i)^(my|mysql|maria|mariadb)$"@,
        "(?i)^(po|post|postgres|postgresql)$"@,
        "(?i)^(sqlite|lite)$"@,
    ]
}

impl UnrecognizedDatabase {
    /// The message for this error.
    pub fn message(&self) -> (text: String)
        ensures
            text@ == "unrecognized database type: "@ + self.text@,
    {
        let mut text = String::from_str("unrecognized database type: ");
        text.append(self.text.as_str());
        text
    }
}

impl DatabaseType {
    /// The kind that a list of match flags selects: the first of MySQL,
    /// PostgreSQL and SQLite whose pattern matched.
    pub open spec fn chosen(flags: Seq<bool>) -> Option<DatabaseType> {
        if flags.len() > 0 && flags[0] {
            Some(DatabaseType::MySQL)
        } else if flags.len() > 1 && flags[1] {
            Some(DatabaseType::PostgreSQL)
        } else if flags.len() > 2 && flags[2] {
            Some(DatabaseType::SQLite)
        } else {
            None
        }
    }

    /// The kind that a text names, if it names one.
    pub open spec fn parsed(text: Seq<char>) -> Option<DatabaseType> {
        match set_matches(database_patterns(), text) {
            Some(flags) => Self::chosen(flags),
            None => None,
        }
    }

    /// The kind that a list of match flags selects.
    pub fn from_matches(flags: &Vec<bool>) -> (kind: Option<DatabaseType>)
        ensures
            kind == Self::chosen(flags@),
    {
        if flags.len() > 0 && flags[0] {
            Some(DatabaseType::MySQL)
        } else if flags.len() > 1 && flags[1] {
            Some(DatabaseType::PostgreSQL)
        } else if flags.len() > 2 && flags[2] {
            Some(DatabaseType::SQLite)
        } else {
            None
        }
    }

    /// Reads the name of a kind of store, in any casing: `my`, `mysql`,
    /// `maria`, `mariadb`; `po`, `post`, `postgres`, `postgresql`; `sqlite`,
    /// `lite`.
    pub fn from_str(s: &str) -> (kind: Result<DatabaseType, UnrecognizedDatabase>)
        ensures
            match kind {
                Ok(k) => Self::parsed(s@) == Some(k),
                Err(e) => Self::parsed(s@) is None && e.text@ == s@,
            },
    {
        let mut patterns: Vec<&'static str> = Vec::new();
        patterns.push("(?i)^(my|mysql|maria|mariadb)$");
        patterns.push("(?i)^(po|post|postgres|postgresql)$");
        patterns.push("(?i)^(sqlite|lite)$");
        assert(slices(patterns@) =~= database_patterns());
        let kind = match regex_set_matches(&patterns, s) {
            Some(flags) => Self::from_matches(&flags),
            None => None,
        };
        match kind {
            Some(k) => Ok(k),
            None => Err(UnrecognizedDatabase { text: s.to_owned() }),
        }
    }

    /// The name of this kind of store.
    pub open spec fn label(self) -> Seq<char> {
        match self {
            DatabaseType::MySQL => "MySQL"@,
            DatabaseType::PostgreSQL => "PostgreSQL"@,
            DatabaseType::SQLite => "SQLite"@,
        }
    }

    /// The name of this kind of store.
    pub fn name(&self) -> (text: &'static str)
        ensures
            text@ == self.label(),
    {
        match self {
            DatabaseType::MySQL => "MySQL",
            DatabaseType::PostgreSQL => "PostgreSQL",
            DatabaseType::SQLite => "SQLite",
        }
    }
}

/// The text of an optional string slice, or `fallback` where there is none.
pub open spec fn text_or(value: Option<&str>, fallback: Seq<char>) -> Seq<char> {
    match value {
        Some(text) => text@,
        None => fallback,
    }
}

/// The address of a store. A file store is named by its file, `ria.db`
/// unless another is given. A server store is named by user, password and
/// database, user and database being `ria` unless others are given.
pub open spec fn url_of(
    database_type: DatabaseType,
    name: Option<&str>,
    user: Option<&str>,
    password: Option<&str>,
) -> Option<Seq<char>> {
    match database_type {
        DatabaseType::SQLite => Some("sqlite://"@ + text_or(name, "ria.db"@)),
        DatabaseType::MySQL => match password {
            Some(secret) => Some(
                "mysql://"@ + text_or(user, "ria"@) + ":"@ + secret@ + "@"@ + text_or(
                    name,
                    "ria"@,
                ),
            ),
            None => None,
        },
        DatabaseType::PostgreSQL => match password {
            Some(secret) => Some(
                "postgres://"@ + text_or(user, "ria"@) + ":"@ + secret@ + "@"@ + text_or(
                    name,
                    "ria"@,
                ),
            ),
            None => None,
        },
    }
}

/// Builds the address under which the store is reached.
pub fn database_url(
    database_type: DatabaseType,
    name: Option<&str>,
    user: Option<&str>,
    password: Option<&str>,
) -> (url: Result<String, MissingPassword>)
    ensures
        match url {
            Ok(text) => url_of(database_type, name, user, password) == Some(text@),
            Err(_) => url_of(database_type, name, user, password) is None,
        },
{
    match database_type {
        DatabaseType::SQLite => {
            let mut url = String::from_str("sqlite://");
            url.append(
                match name {
                    Some(text) => text,
                    None => "ria.db",
                },
            );
            Ok(url)
        },
        DatabaseType::MySQL | DatabaseType::PostgreSQL => {
            let secret = match password {
                Some(secret) => secret,
                None => {
                    return Err(MissingPassword);
                },
            };
            let mut url = String::from_str(
                match database_type {
                    DatabaseType::MySQL => "mysql://",
                    _ => "postgres://",
                },
            );
            url.append(
                match user {
                    Some(text) => text,
                    None => "ria",
                },
            );
            url.append(":");
            url.append(secret);
            url.append("@");
            url.append(
                match name {
                    Some(text) => text,
                    None => "ria",
                },
            );
            Ok(url)
        },
    }
}

/// The recognized artist types.
#[derive(Clone, Copy, Debug, PartialEq, Eq, Structural)]
pub enum RiaArtistType {
    Person,
    Group,
    Orchestra,
    Choir,
    Character,
    Other,
}

/// The recognized artist genders.
#[derive(Clone, Copy, Debug, PartialEq, Eq, Structural)]
pub enum RiaGender {
    Male,
    Female,
    Other,
}

impl RiaArtistType {
    /// The text under which the store keeps this type.
    pub open spec fn stored(self) -> Seq<char> {
        match self {
            RiaArtistType::Person => "person"@,
            RiaArtistType::Group => "group"@,
            RiaArtistType::Orchestra => "orchestra"@,
            RiaArtistType::Choir => "choir"@,
            RiaArtistType::Character => "character"@,
            RiaArtistType::Other => "other"@,
        }
    }

    /// The type that the store keeps under `text`, if any.
    pub open spec fn parsed(text: Seq<char>) -> Option<RiaArtistType> {
        if text == "person"@ {
            Some(RiaArtistType::Person)
        } else if text == "group"@ {
            Some(RiaArtistType::Group)
        } else if text == "orchestra"@ {
            Some(RiaArtistType::Orchestra)
        } else if text == "choir"@ {
            Some(RiaArtistType::Choir)
        } else if text == "character"@ {
            Some(RiaArtistType::Character)
        } else if text == "other"@ {
            Some(RiaArtistType::Other)
        } else {
            None
        }
    }

    /// The text under which the store keeps this type.
    pub fn to_value(&self) -> (text: &'static str)
        ensures
            text@ == self.stored(),
    {
        match self {
            RiaArtistType::Person => "person",
            RiaArtistType::Group => "group",
            RiaArtistType::Orchestra => "orchestra",
            RiaArtistType::Choir => "choir",
            RiaArtistType::Character => "character",
            RiaArtistType::Other => "other",
        }
    }

    /// Reads a stored text back; `None` for a text that names no type.
    pub fn try_from_value(text: &str) -> (parsed: Option<RiaArtistType>)
        ensures
            parsed == Self::parsed(text@),
    {
        if *text == *"person" {
            Some(RiaArtistType::Person)
        } else if *text == *"group" {
            Some(RiaArtistType::Group)
        } else if *text == *"orchestra" {
            Some(RiaArtistType::Orchestra)
        } else if *text == *"choir" {
            Some(RiaArtistType::Choir)
        } else if *text == *"character" {
            Some(RiaArtistType::Character)
        } else if *text == *"other" {
            Some(RiaArtistType::Other)
        } else {
            None
        }
    }

    /// Every type is read back from its stored text.
    pub proof fn law_stored_round_trip(kind: RiaArtistType)
        ensures
            Self::parsed(kind.stored()) == Some(kind),
    {
        reveal_strlit("person");
        reveal_strlit("group");
        reveal_strlit("orchestra");
        reveal_strlit("choir");
        reveal_strlit("character");
        reveal_strlit("other");
        assert("person"@.len() == 6 && "orchestra"@.len() == 9 && "character"@.len() == 9);
        assert("group"@[0] == 'g' && "choir"@[0] == 'c' && "other"@[0] == 'o');
        assert("orchestra"@[0] == 'o' && "character"@[0] == 'c');
    }
}

impl RiaGender {
    /// The text under which the store keeps this gender.
    pub open spec fn stored(self) -> Seq<char> {
        match self {
            RiaGender::Male => "male"@,
            RiaGender::Female => "female"@,
            RiaGender::Other => "other"@,
        }
    }

    /// The gender that the store keeps under `text`, if any.
    pub open spec fn parsed(text: Seq<char>) -> Option<RiaGender> {
        if text == "male"@ {
            Some(RiaGender::Male)
        } else if text == "female"@ {
            Some(RiaGender::Female)
        } else if text == "other"@ {
            Some(RiaGender::Other)
        } else {
            None
        }
    }

    /// The text under which the store keeps this gender.
    pub fn to_value(&self) -> (text: &'static str)
        ensures
            text@ == self.stored(),
    {
        match self {
            RiaGender::Male => "male",
            RiaGender::Female => "female",
            RiaGender::Other => "other",
        }
    }

    /// Reads a stored text back; `None` for a text that names no gender.
    pub fn try_from_value(text: &str) -> (parsed: Option<RiaGender>)
        ensures
            parsed == Self::parsed(text@),
    {
        if *text == *"male" {
            Some(RiaGender::Male)
        } else if *text == *"female" {
            Some(RiaGender::Female)
        } else if *text == *"other" {
            Some(RiaGender::Other)
        } else {
            None
        }
    }

    /// Every gender is read back from its stored text.
    pub proof fn law_stored_round_trip(gender: RiaGender)
        ensures
            Self::parsed(gender.stored()) == Some(gender),
    {
        reveal_strlit("male");
        reveal_strlit("female");
        reveal_strlit("other");
        assert("male"@.len() == 4 && "female"@.len() == 6 && "other"@.len() == 5);
    }
}

} // verus!
