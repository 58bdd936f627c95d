//! Media types, and the links that tie audio records to artists and
//! directories.

use crate::catalog::{directories_of, distinct_paths, in_directory, Catalog, CatalogView};
use crate::entities::{artist_directory, audio_artist, audio_directory};
use crate::grouper::{group_directories, grouped, room_to_group};
use crate::queue::EnrichmentQueue;
use crate::scanner::{
    bounded, entry_fits, entry_jobs_are_read, scan_entries, scanned, Entry, StoreView,
};
use crate::table::{ids, next_key, CatalogError};
use crate::text::{opt_text, starts_with, texts};
use vstd::prelude::*;
use vstd::string::*;

verus! {

/// The general media types.
#[derive(Clone, Copy, Debug, PartialEq, Eq, Structural)]
pub enum MediaType {
    /// Audio files, such as FLAC or MP3.
    Audio,
    /// Image files, such as JPG.
    Image,
    /// Text files, such as CUE. No detected type is classified so.
    Text,
    /// Everything else.
    Unknown,
}

/// The media type that a detected MIME type falls under.
pub open spec fn media_type_of(mime: Seq<char>) -> MediaType {
    if "audio/"@.is_prefix_of(mime) {
        MediaType::Audio
    } else if "image/"@.is_prefix_of(mime) {
        MediaType::Image
    } else {
        MediaType::Unknown
    }
}

impl MediaType {
    /// Classifies a detected MIME type by its prefix. Every text has a
    /// type: what is neither audio nor image is [`MediaType::Unknown`].
    pub fn from_str(s: &str) -> (parsed: MediaType)
        ensures
            parsed == media_type_of(s@),
    {
        if starts_with(s, "audio/") {
            MediaType::Audio
        } else if starts_with(s, "image/") {
            MediaType::Image
        } else {
            MediaType::Unknown
        }
    }
}

/// The catalog with one more link between an audio record and an artist.
pub open spec fn linked(catalog: CatalogView, audio_id: int, artist_id: int) -> CatalogView {
    CatalogView {
        audio_artists: catalog.audio_artists.push(
            audio_artist::Row {
                audio_artist_id: next_key::<audio_artist::Model>(catalog.audio_artists),
                audio_id,
                artist_id,
            },
        ),
        ..catalog
    }
}

/// Links an audio record to an artist. Refused, with no change, when the
/// link table's id space is used up.
pub fn store_audio_artist(
    catalog: &mut Catalog,
    audio_id: i32,
    artist_id: i32,
) -> (outcome: Result<(), CatalogError>)
    requires
        old(catalog).wf(),
    ensures
        final(catalog).wf(),
        match outcome {
            Ok(()) => final(catalog)@ == linked(old(catalog)@, audio_id as int, artist_id as int),
            Err(e) => e == CatalogError::Full && final(catalog)@ == old(catalog)@ && next_key::<
                audio_artist::Model,
            >(old(catalog)@.audio_artists) > i32::MAX,
        },
{
    let link = audio_artist::Model { audio_artist_id: 0, audio_id, artist_id };
    match catalog.audio_artists.insert(link) {
        Ok(_) => Ok(()),
        Err(e) => Err(e),
    }
}

/// The artist's directory links after those for the directories named by
/// `links` for the audio record have been added, each once and only where
/// the artist was not yet linked to the directory.
pub open spec fn backfilled(
    have: Seq<artist_directory::Row>,
    links: Seq<audio_directory::Row>,
    audio_id: int,
    artist_id: int,
    stamp: i64,
) -> Seq<artist_directory::Row>
    decreases links.len(),
{
    if links.len() == 0 {
        have
    } else {
        let before = backfilled(have, links.drop_last(), audio_id, artist_id, stamp);
        let link = links.last();
        if link.audio_id == audio_id && !in_directory(before, artist_id, link.directory_id) {
            before.push(
                artist_directory::Row {
                    artist_directory_id: next_key::<artist_directory::Model>(before),
                    created: stamp,
                    updated: stamp,
                    artist_id,
                    directory_id: link.directory_id,
                },
            )
        } else {
            before
        }
    }
}

/// Among the first links no more directories hold the audio record than
/// among all of them.
pub proof fn lemma_directories_grow(links: Seq<audio_directory::Row>, audio_id: int, n: int)
    requires
        0 <= n <= links.len(),
    ensures
        directories_of(links.take(n), audio_id).len() <= directories_of(links, audio_id).len(),
    decreases links.len() - n,
{
    if n < links.len() {
        assert(links.take(n + 1).drop_last() =~= links.take(n));
        lemma_directories_grow(links, audio_id, n + 1);
    } else {
        assert(links.take(n) =~= links);
    }
}

/// Backfilling adds at most one row for each directory that holds the audio
/// record.
pub proof fn lemma_backfilled_grows(
    have: Seq<artist_directory::Row>,
    links: Seq<audio_directory::Row>,
    audio_id: int,
    artist_id: int,
    stamp: i64,
)
    ensures
        next_key::<artist_directory::Model>(have) <= next_key::<artist_directory::Model>(
            backfilled(have, links, audio_id, artist_id, stamp),
        ) <= next_key::<artist_directory::Model>(have) + directories_of(links, audio_id).len(),
    decreases links.len(),
{
    if links.len() > 0 {
        lemma_backfilled_grows(have, links.drop_last(), audio_id, artist_id, stamp);
    }
}

/// Links the artist to every directory that holds the audio record, unless
/// the two are linked already. Refused, with no change, when the link table
/// has fewer free ids than the audio record has directories.
pub fn store_artist_directory(
    catalog: &mut Catalog,
    audio_id: i32,
    artist_id: i32,
    stamp: i64,
) -> (outcome: Result<(), CatalogError>)
    requires
        old(catalog).wf(),
    ensures
        final(catalog).wf(),
        match outcome {
            Ok(()) => final(catalog)@ == (CatalogView {
                artist_directories: backfilled(
                    old(catalog)@.artist_directories,
                    old(catalog)@.audio_directories,
                    audio_id as int,
                    artist_id as int,
                    stamp,
                ),
                ..old(catalog)@
            }),
            Err(e) => e == CatalogError::Full && final(catalog)@ == old(catalog)@,
        },
        outcome is Ok <==> next_key::<artist_directory::Model>(old(catalog)@.artist_directories)
            + directories_of(old(catalog)@.audio_directories, audio_id as int).len() <= i32::MAX
            + 1,
{
    let n = catalog.audio_directories.len();
    let holding = catalog.directories_of(audio_id);
    let needed = holding.len();
    if !catalog.artist_directories.has_room(needed) {
        return Err(CatalogError::Full);
    }
    let mut i: usize = 0;
    while i < n
        invariant
            catalog.wf(),
            n == catalog@.audio_directories.len(),
            i <= n,
            next_key::<artist_directory::Model>(old(catalog)@.artist_directories)
                + directories_of(old(catalog)@.audio_directories, audio_id as int).len()
                <= i32::MAX + 1,
            catalog@ == (CatalogView {
                artist_directories: backfilled(
                    old(catalog)@.artist_directories,
                    old(catalog)@.audio_directories.take(i as int),
                    audio_id as int,
                    artist_id as int,
                    stamp,
                ),
                ..old(catalog)@
            }),
        decreases n - i,
    {
        let link = *catalog.audio_directories.get(i);
        proof {
            assert(old(catalog)@.audio_directories.take(i + 1).drop_last() =~= old(
                catalog,
            )@.audio_directories.take(i as int));
            lemma_backfilled_grows(
                old(catalog)@.artist_directories,
                old(catalog)@.audio_directories.take(i as int),
                audio_id as int,
                artist_id as int,
                stamp,
            );
            lemma_directories_grow(old(catalog)@.audio_directories, audio_id as int, i as int);
            lemma_directories_grow(old(catalog)@.audio_directories, audio_id as int, i + 1);
        }
        if link.audio_id == audio_id && !catalog.has_artist_directory(
            artist_id,
            link.directory_id,
        ) {
            let row = artist_directory::Model {
                artist_directory_id: 0,
                created: stamp,
                updated: stamp,
                artist_id,
                directory_id: link.directory_id,
            };
            match catalog.artist_directories.insert(row) {
                Ok(_) => {},
                Err(e) => {
                    return Err(e);
                },
            }
        }
        i += 1;
    }
    assert(old(catalog)@.audio_directories.take(n as int) =~= old(catalog)@.audio_directories);
    Ok(())
}

/// What one scan did.
#[derive(Clone, Copy, Debug, PartialEq, Eq, Structural)]
pub struct ScanReport {
    /// Entries of the walk that were handled.
    pub handled: usize,
    /// Directory rows that the grouping pass added.
    pub directories: usize,
}

/// Why a scan stopped early.
#[derive(Clone, Copy, Debug, PartialEq, Eq, Structural)]
pub enum ScanError {
    /// The store lacked the free ids for a file. The files before it are
    /// recorded; nothing was grouped.
    Recording(CatalogError),
    /// The catalog lacked the free ids for the grouping pass. Every file is
    /// recorded; nothing was grouped.
    Grouping(CatalogError),
}

/// One scan: the entries of a walk are handled in order until `limit` files
/// are handled, and then the audio records are grouped by directory. Each
/// job that the scan queues is read back, when the resolver claims it, as
/// the job that was written. A scan that
/// the store has no room for stops, as [`ScanError`] says.
pub fn scan_media_files(
    catalog: &mut Catalog,
    queue: &mut EnrichmentQueue,
    entries: &Vec<Entry>,
    limit: usize,
    stamp: i64,
) -> (outcome: Result<ScanReport, ScanError>)
    requires
        old(catalog).wf(),
        old(queue).wf(),
    ensures
        final(catalog).wf(),
        final(queue).wf(),
        ({
            let before = StoreView { catalog: old(catalog)@, queue: old(queue)@ };
            let after = StoreView { catalog: final(catalog)@, queue: final(queue)@ };
            let handled = bounded(entries@, limit as int);
            let recorded = scanned(before, entries@.take(handled), stamp);
            match outcome {
                Ok(report) => {
                    &&& forall|i: int|
                        0 <= i < handled ==> entry_jobs_are_read(
                            #[trigger] scanned(before, entries@.take(i), stamp),
                            entries@[i],
                        )
                    &&& report.handled == handled
                    &&& report.directories == distinct_paths(recorded.catalog.audio).len()
                    &&& room_to_group(recorded.catalog)
                    &&& after == (StoreView {
                        catalog: grouped(recorded.catalog, stamp),
                        queue: recorded.queue,
                    })
                },
                Err(ScanError::Recording(e)) => e == CatalogError::Full && exists|i: int|
                    0 <= i < handled && after == #[trigger] scanned(
                        before,
                        entries@.take(i),
                        stamp,
                    ) && !entry_fits(after, entries@[i]),
                Err(ScanError::Grouping(e)) => e == CatalogError::Full && after == recorded
                    && !room_to_group(recorded.catalog),
            }
        }),
{
    let handled = match scan_entries(catalog, queue, entries, limit, stamp) {
        Ok(handled) => handled,
        Err(e) => {
            return Err(ScanError::Recording(e));
        },
    };
    match group_directories(catalog, stamp) {
        Ok(directories) => Ok(ScanReport { handled, directories }),
        Err(e) => Err(ScanError::Grouping(e)),
    }
}

/// One line of the library listing: an audio file, its directory and the
/// artist of that directory.
pub struct MediaList {
    pub audio_name: String,
    pub audio_path: String,
    pub audio_id: u32,
    pub directory_name: String,
    pub artist_name: Option<String>,
}

/// The artist of the last of `items`, or `None` where there is no item.
pub open spec fn last_artist(items: Seq<MediaList>) -> Option<Seq<char>> {
    if items.len() == 0 {
        None
    } else {
        opt_text(items.last().artist_name)
    }
}

/// The directory of the last of `items`, or the empty text where there is
/// no item.
pub open spec fn last_album(items: Seq<MediaList>) -> Seq<char> {
    if items.len() == 0 {
        Seq::empty()
    } else {
        items.last().directory_name@
    }
}

/// The heading for an artist.
pub open spec fn artist_heading(artist: Option<Seq<char>>) -> Seq<char> {
    match artist {
        Some(name) => "\n"@ + name + ":"@,
        None => "\nUnidentified artist:"@,
    }
}

/// The lines printed for one item that follows an item of the artist
/// `artist` in the directory `album`: a heading where the artist changes, the
/// directory where it changes, and the audio file.
pub open spec fn item_lines(artist: Option<Seq<char>>, album: Seq<char>, item: MediaList) -> Seq<
    Seq<char>,
> {
    let heading = if opt_text(item.artist_name) != artist {
        seq![artist_heading(opt_text(item.artist_name))]
    } else {
        Seq::empty()
    };
    let directory = if item.directory_name@ != album {
        seq!["  "@ + item.directory_name@]
    } else {
        Seq::empty()
    };
    heading + directory + seq!["     - "@ + item.audio_name@]
}

/// The lines of the library listing.
pub open spec fn listing(items: Seq<MediaList>) -> Seq<Seq<char>>
    decreases items.len(),
{
    if items.len() == 0 {
        Seq::empty()
    } else {
        listing(items.drop_last()) + item_lines(
            last_artist(items.drop_last()),
            last_album(items.drop_last()),
            items.last(),
        )
    }
}

/// Whether two optional strings hold the same text, or both none.
fn same_text(a: &Option<String>, b: &Option<String>) -> (same: bool)
    ensures
        same == (opt_text(*a) == opt_text(*b)),
{
    match (a, b) {
        (Some(x), Some(y)) => *x.as_str() == *y.as_str(),
        (None, None) => true,
        _ => false,
    }
}

/// The lines of the library listing: the audio files in the order given,
/// under a heading for each run of one artist and a line for each run of
/// one directory.
pub fn print_media(media: &Vec<MediaList>) -> (lines: Vec<String>)
    ensures
        texts(lines@) == listing(media@),
{
    let mut lines: Vec<String> = Vec::new();
    let n = media.len();
    let mut i: usize = 0;
    while i < n
        invariant
            n == media@.len(),
            i <= n,
            texts(lines@) == listing(media@.take(i as int)),
        decreases n - i,
    {
        let item = &media[i];
        let ghost seen = media@.take(i as int);
        proof {
            assert(media@.take(i + 1).drop_last() =~= seen);
        }
        let artist_changed = if i == 0 {
            item.artist_name.is_some()
        } else {
            !same_text(&item.artist_name, &media[i - 1].artist_name)
        };
        let album_changed = if i == 0 {
            !item.directory_name.as_str().is_empty()
        } else {
            *item.directory_name.as_str() != *media[i - 1].directory_name.as_str()
        };
        if artist_changed {
            let mut heading = String::from_str("\n");
            match &item.artist_name {
                Some(name) => {
                    heading.append(name.as_str());
                    heading.append(":");
                },
                None => {
                    heading.append("Unidentified artist:");
                    proof {
                        reveal_strlit("\n");
                        reveal_strlit("Unidentified artist:");
                        reveal_strlit("\nUnidentified artist:");
                    }
                },
            }
            assert(heading@ == artist_heading(opt_text(item.artist_name)));
            lines.push(heading);
        }
        assert(album_changed == (item.directory_name@ != last_album(seen))) by {
            if i == 0 {
                assert(item.directory_name@.len() == 0 <==> item.directory_name@
                    =~= Seq::<char>::empty());
            }
        }
        if album_changed {
            let mut directory = String::from_str("  ");
            directory.append(item.directory_name.as_str());
            lines.push(directory);
        }
        let mut track = String::from_str("     - ");
        track.append(item.audio_name.as_str());
        lines.push(track);
        i += 1;
    }
    assert(media@.take(n as int) =~= media@);
    lines
}

} // verus!
