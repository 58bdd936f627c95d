//! The catalog: the tables that describe the audio library, and the lookups
//! that the scanner, the grouper and the resolver make in them.

use crate::entities::{
    artist, artist_area, artist_directory, audio, audio_artist, audio_directory, audio_tag,
    directory,
};
use crate::table::{ascending, ids, next_key, opt_id, CatalogError, Record, Table};
use crate::text::texts;
use vstd::prelude::*;

verus! {

/// Whether some row of `rows` has this `uri`.
pub open spec fn holds_uri(rows: Seq<audio::Row>, uri: Seq<char>) -> bool {
    exists|i: int| 0 <= i < rows.len() && (#[trigger] rows[i]).uri == uri
}

/// Whether no two rows of `rows` share a `uri`.
pub open spec fn distinct_uris(rows: Seq<audio::Row>) -> bool {
    forall|i: int, j: int|
        0 <= i < j < rows.len() ==> (#[trigger] rows[i]).uri != (#[trigger] rows[j]).uri
}

/// The audio table. Besides ascending ids it keeps each `uri` at most once.
pub struct AudioTable {
    rows: Table<audio::Model>,
}

impl View for AudioTable {
    type V = Seq<audio::Row>;

    closed spec fn view(&self) -> Seq<audio::Row> {
        self.rows@
    }
}

impl AudioTable {
    /// The table's invariant: ids ascend and every `uri` occurs once.
    pub open spec fn wf(&self) -> bool {
        &&& ascending::<audio::Model>(self@)
        &&& distinct_uris(self@)
    }

    /// An empty table.
    pub fn new() -> (table: Self)
        ensures
            table@ == Seq::<audio::Row>::empty(),
            table.wf(),
    {
        AudioTable { rows: Table::new() }
    }

    /// The rows, for reading.
    pub fn rows(&self) -> (rows: &Table<audio::Model>)
        ensures
            rows@ == self@,
    {
        &self.rows
    }

    /// Whether `count` more records can be inserted before the id space is
    /// used up.
    pub fn has_room(&self, count: usize) -> (room: bool)
        requires
            self.wf(),
        ensures
            room == (next_key::<audio::Model>(self@) + count <= i32::MAX + 1),
    {
        self.rows.has_room(count)
    }

    /// The id of the record stored under `uri`, if there is one.
    pub fn find_by_uri(&self, uri: &str) -> (found: Option<i32>)
        ensures
            match found {
                Some(id) => exists|i: int|
                    0 <= i < self@.len() && (#[trigger] self@[i]).uri == uri@ && self@[i].audio_id
                        == id,
                None => !holds_uri(self@, uri@),
            },
    {
        let n = self.rows.len();
        let mut i: usize = 0;
        while i < n
            invariant
                n == self@.len(),
                i <= n,
                forall|j: int| 0 <= j < i ==> (#[trigger] self@[j]).uri != uri@,
            decreases n - i,
        {
            let row = self.rows.get(i);
            if *row.uri.as_str() == *uri {
                return Some(row.audio_id);
            }
            i += 1;
        }
        None
    }

    /// Appends `record` under its own id. Refused when its `uri` is already
    /// stored, or when its id does not lie above the ids in the table.
    pub fn load(&mut self, record: audio::Model) -> (outcome: Result<(), CatalogError>)
        requires
            old(self).wf(),
        ensures
            final(self).wf(),
            match outcome {
                Ok(()) => !holds_uri(old(self)@, record@.uri) && record@.audio_id >= next_key::<
                    audio::Model,
                >(old(self)@) && final(self)@ == old(self)@.push(record@),
                Err(e) => final(self)@ == old(self)@ && if holds_uri(old(self)@, record@.uri) {
                    e == CatalogError::DuplicateUri
                } else {
                    e == CatalogError::OutOfOrder && record@.audio_id < next_key::<audio::Model>(
                        old(self)@,
                    )
                },
            },
    {
        if self.find_by_uri(record.uri.as_str()).is_some() {
            return Err(CatalogError::DuplicateUri);
        }
        self.rows.load(record)
    }

    /// Appends `record` under the next free id and returns that id. Refused
    /// when its `uri` is already stored, or when the id space is used up.
    /// The id that `record` came with is not read.
    pub fn insert(&mut self, record: audio::Model) -> (outcome: Result<i32, CatalogError>)
        requires
            old(self).wf(),
        ensures
            final(self).wf(),
            match outcome {
                Ok(id) => !holds_uri(old(self)@, record@.uri) && id == next_key::<audio::Model>(
                    old(self)@,
                ) && final(self)@ == old(self)@.push(audio::Model::rekeyed(record@, id as int)),
                Err(e) => final(self)@ == old(self)@ && if holds_uri(old(self)@, record@.uri) {
                    e == CatalogError::DuplicateUri
                } else {
                    e == CatalogError::Full && next_key::<audio::Model>(old(self)@) > i32::MAX
                },
            },
    {
        if self.find_by_uri(record.uri.as_str()).is_some() {
            return Err(CatalogError::DuplicateUri);
        }
        self.rows.insert(record)
    }
}

/// The catalog's tables.
pub struct Catalog {
    pub audio: AudioTable,
    pub audio_tags: Table<audio_tag::Model>,
    pub artists: Table<artist::Model>,
    pub artist_areas: Table<artist_area::Model>,
    pub audio_artists: Table<audio_artist::Model>,
    pub directories: Table<directory::Model>,
    pub artist_directories: Table<artist_directory::Model>,
    pub audio_directories: Table<audio_directory::Model>,
}

/// What a [`Catalog`] holds, as mathematical values.
pub struct CatalogView {
    pub audio: Seq<audio::Row>,
    pub audio_tags: Seq<audio_tag::Row>,
    pub artists: Seq<artist::Row>,
    pub artist_areas: Seq<artist_area::Row>,
    pub audio_artists: Seq<audio_artist::Row>,
    pub directories: Seq<directory::Row>,
    pub artist_directories: Seq<artist_directory::Row>,
    pub audio_directories: Seq<audio_directory::Row>,
}

impl View for Catalog {
    type V = CatalogView;

    open spec fn view(&self) -> CatalogView {
        CatalogView {
            audio: self.audio@,
            audio_tags: self.audio_tags@,
            artists: self.artists@,
            artist_areas: self.artist_areas@,
            audio_artists: self.audio_artists@,
            directories: self.directories@,
            artist_directories: self.artist_directories@,
            audio_directories: self.audio_directories@,
        }
    }
}

impl CatalogView {
    /// A catalog without rows.
    pub open spec fn empty() -> CatalogView {
        CatalogView {
            audio: Seq::empty(),
            audio_tags: Seq::empty(),
            artists: Seq::empty(),
            artist_areas: Seq::empty(),
            audio_artists: Seq::empty(),
            directories: Seq::empty(),
            artist_directories: Seq::empty(),
            audio_directories: Seq::empty(),
        }
    }

    /// The invariant of a catalog: in every table the ids ascend, and no two
    /// audio records share a `uri`.
    pub open spec fn wf(self) -> bool {
        &&& ascending::<audio::Model>(self.audio)
        &&& distinct_uris(self.audio)
        &&& ascending::<audio_tag::Model>(self.audio_tags)
        &&& ascending::<artist::Model>(self.artists)
        &&& ascending::<artist_area::Model>(self.artist_areas)
        &&& ascending::<audio_artist::Model>(self.audio_artists)
        &&& ascending::<directory::Model>(self.directories)
        &&& ascending::<artist_directory::Model>(self.artist_directories)
        &&& ascending::<audio_directory::Model>(self.audio_directories)
    }

    /// Whether every id in every table fits the store's 32-bit id columns.
    pub open spec fn fits(self) -> bool {
        &&& next_key::<audio::Model>(self.audio) <= i32::MAX + 1
        &&& next_key::<audio_tag::Model>(self.audio_tags) <= i32::MAX + 1
        &&& next_key::<artist::Model>(self.artists) <= i32::MAX + 1
        &&& next_key::<artist_area::Model>(self.artist_areas) <= i32::MAX + 1
        &&& next_key::<audio_artist::Model>(self.audio_artists) <= i32::MAX + 1
        &&& next_key::<directory::Model>(self.directories) <= i32::MAX + 1
        &&& next_key::<artist_directory::Model>(self.artist_directories) <= i32::MAX + 1
        &&& next_key::<audio_directory::Model>(self.audio_directories) <= i32::MAX + 1
    }
}

/// The id of the first artist of this name, if there is one.
pub open spec fn first_artist_named(artists: Seq<artist::Row>, name: Seq<char>) -> Option<int>
    decreases artists.len(),
{
    if artists.len() == 0 {
        None
    } else if artists.first().name == name {
        Some(artists.first().artist_id)
    } else {
        first_artist_named(artists.drop_first(), name)
    }
}

/// One more artist at the end does not change which artist a name finds,
/// unless the name found none: then it finds the new artist, where that
/// one bears the name.
pub proof fn lemma_first_artist_push(artists: Seq<artist::Row>, row: artist::Row, name: Seq<char>)
    ensures
        first_artist_named(artists.push(row), name) == match first_artist_named(artists, name) {
            Some(id) => Some(id),
            None => if row.name == name {
                Some(row.artist_id)
            } else {
                None
            },
        },
    decreases artists.len(),
{
    let more = artists.push(row);
    if artists.len() > 0 {
        assert(more.first() == artists.first());
        assert(more.drop_first() =~= artists.drop_first().push(row));
        lemma_first_artist_push(artists.drop_first(), row, name);
    } else {
        assert(more.first() == row);
        assert(more.drop_first().len() == 0);
        assert(first_artist_named(more.drop_first(), name) is None);
    }
}

/// The id of the first area of this name, if there is one.
pub open spec fn first_area_named(areas: Seq<artist_area::Row>, name: Seq<char>) -> Option<int>
    decreases areas.len(),
{
    if areas.len() == 0 {
        None
    } else if areas.first().name == name {
        Some(areas.first().artist_area_id)
    } else {
        first_area_named(areas.drop_first(), name)
    }
}

/// The directories that hold the audio record `audio_id`, in the order of
/// their links.
pub open spec fn directories_of(links: Seq<audio_directory::Row>, audio_id: int) -> Seq<int>
    decreases links.len(),
{
    if links.len() == 0 {
        Seq::empty()
    } else if links.last().audio_id == audio_id {
        directories_of(links.drop_last(), audio_id).push(links.last().directory_id)
    } else {
        directories_of(links.drop_last(), audio_id)
    }
}

/// Whether the artist is linked to the directory.
pub open spec fn in_directory(
    links: Seq<artist_directory::Row>,
    artist_id: int,
    directory_id: int,
) -> bool {
    exists|i: int|
        0 <= i < links.len() && (#[trigger] links[i]).artist_id == artist_id
            && links[i].directory_id == directory_id
}

/// The paths of the audio records, each once, in the order in which they
/// first occur.
pub open spec fn distinct_paths(rows: Seq<audio::Row>) -> Seq<Seq<char>>
    decreases rows.len(),
{
    if rows.len() == 0 {
        Seq::empty()
    } else if distinct_paths(rows.drop_last()).contains(rows.last().path) {
        distinct_paths(rows.drop_last())
    } else {
        distinct_paths(rows.drop_last()).push(rows.last().path)
    }
}

/// The ids of the audio records that lie in `path`, in table order.
pub open spec fn audio_in(rows: Seq<audio::Row>, path: Seq<char>) -> Seq<int>
    decreases rows.len(),
{
    if rows.len() == 0 {
        Seq::empty()
    } else if rows.last().path == path {
        audio_in(rows.drop_last(), path).push(rows.last().audio_id)
    } else {
        audio_in(rows.drop_last(), path)
    }
}

impl Catalog {
    /// The id of the first artist whose name is exactly `name`.
    pub fn find_artist_by_name(&self, name: &str) -> (found: Option<i32>)
        ensures
            opt_id(found) == first_artist_named(self@.artists, name@),
    {
        let n = self.artists.len();
        let mut i: usize = 0;
        assert(self@.artists.skip(0) =~= self@.artists);
        while i < n
            invariant
                n == self@.artists.len(),
                i <= n,
                first_artist_named(self@.artists, name@) == first_artist_named(
                    self@.artists.skip(i as int),
                    name@,
                ),
            decreases n - i,
        {
            let row = self.artists.get(i);
            assert(self@.artists.skip(i as int).drop_first() =~= self@.artists.skip(i + 1));
            if *row.name.as_str() == *name {
                return Some(row.artist_id);
            }
            i += 1;
        }
        None
    }

    /// The id of the first area whose name is exactly `name`.
    pub fn find_area_by_name(&self, name: &str) -> (found: Option<i32>)
        ensures
            opt_id(found) == first_area_named(self@.artist_areas, name@),
    {
        let n = self.artist_areas.len();
        let mut i: usize = 0;
        assert(self@.artist_areas.skip(0) =~= self@.artist_areas);
        while i < n
            invariant
                n == self@.artist_areas.len(),
                i <= n,
                first_area_named(self@.artist_areas, name@) == first_area_named(
                    self@.artist_areas.skip(i as int),
                    name@,
                ),
            decreases n - i,
        {
            let row = self.artist_areas.get(i);
            assert(self@.artist_areas.skip(i as int).drop_first() =~= self@.artist_areas.skip(
                i + 1,
            ));
            if *row.name.as_str() == *name {
                return Some(row.artist_area_id);
            }
            i += 1;
        }
        None
    }

    /// The directories that hold the audio record `audio_id`.
    pub fn directories_of(&self, audio_id: i32) -> (found: Vec<i32>)
        ensures
            ids(found@) == directories_of(self@.audio_directories, audio_id as int),
    {
        let n = self.audio_directories.len();
        let mut found: Vec<i32> = Vec::new();
        let mut i: usize = 0;
        while i < n
            invariant
                n == self@.audio_directories.len(),
                i <= n,
                ids(found@) == directories_of(
                    self@.audio_directories.take(i as int),
                    audio_id as int,
                ),
            decreases n - i,
        {
            let row = self.audio_directories.get(i);
            assert(self@.audio_directories.take(i + 1).drop_last() =~= self@.audio_directories.take(
                i as int,
            ));
            if row.audio_id == audio_id {
                found.push(row.directory_id);
            }
            i += 1;
        }
        assert(self@.audio_directories.take(n as int) =~= self@.audio_directories);
        found
    }

    /// Whether the artist is linked to the directory.
    pub fn has_artist_directory(&self, artist_id: i32, directory_id: i32) -> (found: bool)
        ensures
            found == in_directory(self@.artist_directories, artist_id as int, directory_id as int),
    {
        let n = self.artist_directories.len();
        let mut i: usize = 0;
        while i < n
            invariant
                n == self@.artist_directories.len(),
                i <= n,
                forall|j: int|
                    0 <= j < i ==> !((#[trigger] self@.artist_directories[j]).artist_id
                        == artist_id && self@.artist_directories[j].directory_id == directory_id),
            decreases n - i,
        {
            let row = self.artist_directories.get(i);
            if row.artist_id == artist_id && row.directory_id == directory_id {
                return true;
            }
            i += 1;
        }
        false
    }

    /// The paths of the audio records, each once.
    pub fn distinct_paths(&self) -> (paths: Vec<String>)
        ensures
            texts(paths@) == distinct_paths(self@.audio),
    {
        let rows = self.audio.rows();
        let n = rows.len();
        let mut paths: Vec<String> = Vec::new();
        let mut i: usize = 0;
        while i < n
            invariant
                n == self@.audio.len(),
                rows@ == self@.audio,
                i <= n,
                texts(paths@) == distinct_paths(self@.audio.take(i as int)),
            decreases n - i,
        {
            let row = rows.get(i);
            assert(self@.audio.take(i + 1).drop_last() =~= self@.audio.take(i as int));
            let mut seen = false;
            let mut j: usize = 0;
            while j < paths.len()
                invariant
                    j <= paths.len(),
                    seen == exists|k: int| 0 <= k < j && #[trigger] texts(paths@)[k] == row@.path,
                decreases paths.len() - j,
            {
                if *paths[j].as_str() == *row.path.as_str() {
                    seen = true;
                    assert(texts(paths@)[j as int] == row@.path);
                }
                j += 1;
            }
            if !seen {
                paths.push(row.path.clone());
            }
            i += 1;
        }
        assert(self@.audio.take(n as int) =~= self@.audio);
        paths
    }

    /// The ids of the audio records that lie in `path`.
    pub fn audio_in(&self, path: &str) -> (found: Vec<i32>)
        ensures
            ids(found@) == audio_in(self@.audio, path@),
    {
        let rows = self.audio.rows();
        let n = rows.len();
        let mut found: Vec<i32> = Vec::new();
        let mut i: usize = 0;
        while i < n
            invariant
                n == self@.audio.len(),
                rows@ == self@.audio,
                i <= n,
                ids(found@) == audio_in(self@.audio.take(i as int), path@),
            decreases n - i,
        {
            let row = rows.get(i);
            assert(self@.audio.take(i + 1).drop_last() =~= self@.audio.take(i as int));
            if *row.path.as_str() == *path {
                found.push(row.audio_id);
            }
            i += 1;
        }
        assert(self@.audio.take(n as int) =~= self@.audio);
        found
    }

    /// The catalog's invariant, that of its view.
    pub open spec fn wf(&self) -> bool {
        self@.wf()
    }

    /// A catalog without rows.
    pub fn new() -> (catalog: Self)
        ensures
            catalog@ == CatalogView::empty(),
            catalog.wf(),
    {
        Catalog {
            audio: AudioTable::new(),
            audio_tags: Table::new(),
            artists: Table::new(),
            artist_areas: Table::new(),
            audio_artists: Table::new(),
            directories: Table::new(),
            artist_directories: Table::new(),
            audio_directories: Table::new(),
        }
    }
}

} // verus!
