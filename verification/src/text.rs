//! Text helpers: equality and appending as the standard library defines
//! them, escaping as `escape_string` defines it, and matching by position.

use vstd::prelude::*;
use vstd::string::*;

verus! {

/// `str`'s `==`: two string slices are equal exactly when they hold the same
/// characters.
pub assume_specification[ <str as PartialEq>::eq ](a: &str, b: &str) -> (same: bool)
    ensures
        same == (a@ == b@),
;

/// Whether `escape_string::escape` puts a backslash before this character.
pub open spec fn is_special(c: char) -> bool {
    c == '\u{7}' || c == '\u{8}' || c == '\t' || c == '\n' || c == '\u{b}' || c == '\u{c}'
        || c == '\r' || c == ' ' || c == '\\'
}

/// The character that stands behind the backslash for a special character.
pub open spec fn escape_letter(c: char) -> char {
    if c == '\u{7}' {
        'a'
    } else if c == '\u{8}' {
        'b'
    } else if c == '\t' {
        't'
    } else if c == '\n' {
        'n'
    } else if c == '\u{b}' {
        'v'
    } else if c == '\u{c}' {
        'f'
    } else if c == '\r' {
        'r'
    } else {
        c
    }
}

/// One character, escaped: a special character becomes a backslash and its
/// letter, any other character stays.
pub open spec fn escaped_char(c: char) -> Seq<char> {
    if is_special(c) {
        seq!['\\', escape_letter(c)]
    } else {
        seq![c]
    }
}

/// A text with every special character escaped by a backslash.
pub open spec fn escaped(text: Seq<char>) -> Seq<char> {
    text.map_values(|c: char| escaped_char(c)).flatten()
}

/// `escape_string::escape`: the text with a backslash before the bell,
/// backspace, tab, line feed, vertical tab, form feed, carriage return,
/// space and backslash characters, each control character written as its
/// letter. The outside function works byte by byte; the special bytes are
/// ASCII, so no byte of a longer UTF-8 sequence is touched.
#[verifier::external_body]
pub(crate) fn escape(text: &str) -> (out: String)
    ensures
        out@ == escaped(text@),
{
    escape_string::escape(text).into_owned()
}

/// `String::push`: appends one character.
pub assume_specification[ String::push ](text: &mut String, c: char)
    ensures
        final(text)@ == old(text)@.push(c),
;

/// The characters of a text, for reading by position.
pub fn chars_of(text: &str) -> (chars: Vec<char>)
    ensures
        chars@ == text@,
{
    let mut chars: Vec<char> = Vec::new();
    for c in it: text.chars()
        invariant
            chars@ == it.seq().take(it.index() as int),
            it.seq() == text@,
    {
        chars.push(c);
    }
    chars
}

/// Whether `pattern` stands in `text` at position `at`.
pub open spec fn stands_at(text: Seq<char>, at: int, pattern: Seq<char>) -> bool {
    0 <= at && at + pattern.len() <= text.len() && text.subrange(at, at + pattern.len())
        == pattern
}

/// Whether `pattern` stands in `text` at position `at`.
pub fn matches_at(text: &Vec<char>, at: usize, pattern: &Vec<char>) -> (found: bool)
    ensures
        found == stands_at(text@, at as int, pattern@),
{
    let m = pattern.len();
    if at > text.len() || m > text.len() - at {
        return false;
    }
    let mut i: usize = 0;
    while i < m
        invariant
            m == pattern@.len(),
            at + m <= text@.len(),
            text@.len() <= usize::MAX,
            i <= m,
            forall|j: int| 0 <= j < i ==> text@[at + j] == pattern@[j],
        decreases m - i,
    {
        if text[at + i] != pattern[i] {
            return false;
        }
        i += 1;
    }
    assert(text@.subrange(at as int, at + m) =~= pattern@);
    true
}

/// Whether `text` begins with `prefix`.
pub fn starts_with(text: &str, prefix: &str) -> (found: bool)
    ensures
        found == prefix@.is_prefix_of(text@),
{
    let text_chars = chars_of(text);
    let prefix_chars = chars_of(prefix);
    matches_at(&text_chars, 0, &prefix_chars)
}

/// The texts of a list of strings.
pub open spec fn texts(values: Seq<String>) -> Seq<Seq<char>> {
    values.map_values(|text: String| text@)
}

/// The text that an optional string holds, if any.
pub open spec fn opt_text(value: Option<String>) -> Option<Seq<char>> {
    match value {
        Some(text) => Some(text@),
        None => None,
    }
}

/// A copy of an optional string.
pub fn copy_opt(value: &Option<String>) -> (copy: Option<String>)
    ensures
        opt_text(copy) == opt_text(*value),
{
    match value {
        Some(text) => Some(text.clone()),
        None => None,
    }
}

} // verus!
