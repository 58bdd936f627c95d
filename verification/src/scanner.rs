//! The scanner: takes what a walk of the library tree found, entry by entry,
//! and records each audio file once, with its kept tags and its artist.

use crate::catalog::{distinct_uris, first_artist_named, holds_uri, Catalog, CatalogView};
use crate::entities::{artist, audio, audio_artist, audio_tag, musicbrainz_queue};
use crate::media::{linked, media_type_of, store_audio_artist, MediaType};
use crate::payload::{parsed_payload, payload_text, PayloadType, PayloadView, QueuePayload};
use crate::queue::{enqueued, EnrichmentQueue};
use crate::table::{next_key, CatalogError};
use crate::tags::{is_artist_tag, is_stored_tag, names_artist, stores_tag};
use crate::uri::{audio_uri, uri_of};
use crate::utils::{hidden_name, is_hidden};
use vstd::prelude::*;
use vstd::string::*;

verus! {

/// One tag that the extractor reported.
pub struct Tag {
    pub name: String,
    pub value: String,
}

/// What the extractor reported of an audio file.
pub struct Probe {
    /// The codec's name, where the extractor identified it.
    pub codec: Option<String>,
    /// Seconds of audio.
    pub duration: i32,
    pub channels: i32,
    pub bits: i32,
    pub hertz: i32,
    pub tags: Vec<Tag>,
}

/// A file that the walk found.
pub struct FileReport {
    /// The detected MIME type.
    pub media_type: String,
    /// The absolute path, from which the `uri` is built.
    pub absolute_path: String,
    /// The path of the directory that holds the file.
    pub directory: String,
    /// The file's name.
    pub name: String,
    /// The file name's extension, or the empty text.
    pub extension: String,
    /// The extractor's report, or `None` where it failed or was not asked.
    pub probe: Option<Probe>,
}

/// One entry of the walk.
pub enum Entry {
    /// The entry or its metadata could not be read.
    Unreadable,
    /// A directory, or anything else that is no file.
    Directory,
    /// A file whose type could not be detected.
    Undetected,
    /// A file of a detected type.
    File(FileReport),
}

/// What the scanner did with an entry.
#[derive(Clone, Copy, Debug, PartialEq, Eq, Structural)]
pub enum Visit {
    /// Not an audio file that can be read, or hidden: passed over.
    Skipped,
    /// An audio file that the catalog holds already: left as it is.
    Known,
    /// A new audio file without an extractor's report: passed over.
    Unprobed,
    /// A new audio file, recorded under this id.
    Added(i32),
}

/// The catalog and the queue together.
pub struct StoreView {
    pub catalog: CatalogView,
    pub queue: Seq<musicbrainz_queue::Row>,
}

/// The format recorded for a probed file: the codec's name, or `UNKNOWN`.
pub open spec fn format_of(probe: Probe) -> Seq<char> {
    match probe.codec {
        Some(name) => name@,
        None => "UNKNOWN"@,
    }
}

/// The record of a new audio file.
pub open spec fn audio_row(file: FileReport, probe: Probe, id: int) -> audio::Row {
    audio::Row {
        audio_id: id,
        uri: uri_of(file.absolute_path@),
        path: file.directory@,
        name: file.name@,
        extension: file.extension@,
        format: format_of(probe),
        duration: probe.duration,
        channels: probe.channels,
        bits: probe.bits,
        hertz: probe.hertz,
    }
}

/// The text of the job that asks for the artist named by an audio file.
pub open spec fn artist_job(audio_id: i32, name: Seq<char>) -> Seq<char> {
    payload_text(PayloadView { payload_type: PayloadType::AudioArtist, id: audio_id, value: name })
}

/// The store after one tag of the audio record `audio_id` was handled. A tag
/// that is not kept changes nothing. A kept tag gets a row; where it names
/// the artist, the audio record is linked to the first artist of that name,
/// or, where there is none, a job is queued.
pub open spec fn with_tag(store: StoreView, audio_id: i32, tag: Tag, stamp: i64) -> StoreView {
    if !is_stored_tag(tag.name@) {
        store
    } else {
        let kept = CatalogView {
            audio_tags: store.catalog.audio_tags.push(
                audio_tag::Row {
                    audio_tag_id: next_key::<audio_tag::Model>(store.catalog.audio_tags),
                    audio_id: audio_id as int,
                    name: tag.name@,
                    value: tag.value@,
                },
            ),
            ..store.catalog
        };
        if !is_artist_tag(tag.name@) {
            StoreView { catalog: kept, queue: store.queue }
        } else {
            match first_artist_named(kept.artists, tag.value@) {
                Some(artist_id) => StoreView {
                    catalog: linked(kept, audio_id as int, artist_id),
                    queue: store.queue,
                },
                None => StoreView {
                    catalog: kept,
                    queue: enqueued(store.queue, artist_job(audio_id, tag.value@), stamp),
                },
            }
        }
    }
}

/// The store after the tags of the audio record `audio_id` were handled in
/// order.
pub open spec fn tagged(store: StoreView, audio_id: i32, tags: Seq<Tag>, stamp: i64) -> StoreView
    decreases tags.len(),
{
    if tags.len() == 0 {
        store
    } else {
        with_tag(tagged(store, audio_id, tags.drop_last(), stamp), audio_id, tags.last(), stamp)
    }
}

/// Whether the scanner looks at a file at all: it is not hidden, and its
/// detected type is an audio type.
pub open spec fn wanted(file: FileReport) -> bool {
    !hidden_name(file.name@) && media_type_of(file.media_type@) == MediaType::Audio
}

/// What the scanner does with a file.
pub open spec fn visit_of(store: StoreView, file: FileReport) -> Visit {
    if !wanted(file) {
        Visit::Skipped
    } else if holds_uri(store.catalog.audio, uri_of(file.absolute_path@)) {
        Visit::Known
    } else if file.probe is None {
        Visit::Unprobed
    } else {
        Visit::Added(next_key::<audio::Model>(store.catalog.audio) as i32)
    }
}

/// The store after the scanner handled a file. Only a wanted file whose
/// `uri` is new and that comes with a report changes it: the file is
/// recorded and its tags are handled.
pub open spec fn ingested(store: StoreView, file: FileReport, stamp: i64) -> StoreView {
    match visit_of(store, file) {
        Visit::Added(id) => {
            let probe = file.probe->0;
            let recorded = StoreView {
                catalog: CatalogView {
                    audio: store.catalog.audio.push(
                        audio_row(file, probe, next_key::<audio::Model>(store.catalog.audio)),
                    ),
                    ..store.catalog
                },
                queue: store.queue,
            };
            tagged(recorded, id, probe.tags@, stamp)
        },
        _ => store,
    }
}

/// Whether the store has the free ids that recording a file with `tags`
/// tags may take: one audio record, and `tags` tag rows, artist links and
/// jobs.
pub open spec fn room_to_ingest(store: StoreView, tags: nat) -> bool {
    &&& next_key::<audio::Model>(store.catalog.audio) <= i32::MAX
    &&& next_key::<audio_tag::Model>(store.catalog.audio_tags) + tags <= i32::MAX + 1
    &&& next_key::<audio_artist::Model>(store.catalog.audio_artists) + tags <= i32::MAX + 1
    &&& next_key::<musicbrainz_queue::Model>(store.queue) + tags <= i32::MAX + 1
}

/// Whether the store has room for what the scanner does with a file.
pub open spec fn file_fits(store: StoreView, file: FileReport) -> bool {
    visit_of(store, file) is Added ==> room_to_ingest(store, (file.probe->0).tags@.len())
}

/// Handling tags adds at most one row per tag to the tag table, the artist
/// links and the queue, and touches no other table.
pub proof fn lemma_tagged_grows(store: StoreView, audio_id: i32, tags: Seq<Tag>, stamp: i64)
    ensures
        ({
            let after = tagged(store, audio_id, tags, stamp);
            &&& after.catalog.audio == store.catalog.audio
            &&& after.catalog.artists == store.catalog.artists
            &&& after.catalog.artist_areas == store.catalog.artist_areas
            &&& after.catalog.directories == store.catalog.directories
            &&& after.catalog.artist_directories == store.catalog.artist_directories
            &&& after.catalog.audio_directories == store.catalog.audio_directories
            &&& next_key::<audio_tag::Model>(after.catalog.audio_tags) <= next_key::<
                audio_tag::Model,
            >(store.catalog.audio_tags) + tags.len()
            &&& next_key::<audio_artist::Model>(after.catalog.audio_artists) <= next_key::<
                audio_artist::Model,
            >(store.catalog.audio_artists) + tags.len()
            &&& next_key::<musicbrainz_queue::Model>(after.queue) <= next_key::<
                musicbrainz_queue::Model,
            >(store.queue) + tags.len()
        }),
    decreases tags.len(),
{
    if tags.len() > 0 {
        lemma_tagged_grows(store, audio_id, tags.drop_last(), stamp);
    }
}

/// Whether the job that asks for an artist is read back, when it is claimed,
/// as the job that was written.
pub open spec fn job_is_read(audio_id: i32, name: Seq<char>) -> bool {
    parsed_payload(artist_job(audio_id, name)) == Some(
        PayloadView { payload_type: PayloadType::AudioArtist, id: audio_id, value: name },
    )
}

/// Whether each job that the tags of an audio record ask for is read back:
/// one for each artist tag whose name finds no artist.
pub open spec fn jobs_are_read(artists: Seq<artist::Row>, audio_id: i32, tags: Seq<Tag>) -> bool {
    forall|k: int|
        0 <= k < tags.len() && is_artist_tag((#[trigger] tags[k]).name@) && first_artist_named(
            artists,
            tags[k].value@,
        ) is None ==> job_is_read(audio_id, tags[k].value@)
}

/// Whether each job that the scanner queues for a file is read back.
pub open spec fn file_jobs_are_read(store: StoreView, file: FileReport) -> bool {
    visit_of(store, file) matches Visit::Added(id) ==> jobs_are_read(
        store.catalog.artists,
        id,
        (file.probe->0).tags@,
    )
}

/// Whether each job that the scanner queues for an entry is read back.
pub open spec fn entry_jobs_are_read(store: StoreView, entry: Entry) -> bool {
    match entry {
        Entry::File(file) => file_jobs_are_read(store, file),
        _ => true,
    }
}

/// Handles the tags of a new audio record, for which the store has room.
fn store_tags(
    catalog: &mut Catalog,
    queue: &mut EnrichmentQueue,
    audio_id: i32,
    tags: &Vec<Tag>,
    stamp: i64,
) -> (outcome: Result<(), CatalogError>)
    requires
        old(catalog).wf(),
        old(queue).wf(),
        next_key::<audio_tag::Model>(old(catalog)@.audio_tags) + tags@.len() <= i32::MAX + 1,
        next_key::<audio_artist::Model>(old(catalog)@.audio_artists) + tags@.len() <= i32::MAX
            + 1,
        next_key::<musicbrainz_queue::Model>(old(queue)@) + tags@.len() <= i32::MAX + 1,
    ensures
        final(catalog).wf(),
        final(queue).wf(),
        outcome is Ok,
        (StoreView { catalog: final(catalog)@, queue: final(queue)@ }) == tagged(
            StoreView { catalog: old(catalog)@, queue: old(queue)@ },
            audio_id,
            tags@,
            stamp,
        ),
        jobs_are_read(old(catalog)@.artists, audio_id, tags@),
{
    let ghost start = StoreView { catalog: catalog@, queue: queue@ };
    let n = tags.len();
    let mut i: usize = 0;
    while i < n
        invariant
            jobs_are_read(start.catalog.artists, audio_id, tags@.take(i as int)),
            catalog.wf(),
            queue.wf(),
            n == tags@.len(),
            i <= n,
            next_key::<audio_tag::Model>(start.catalog.audio_tags) + n <= i32::MAX + 1,
            next_key::<audio_artist::Model>(start.catalog.audio_artists) + n <= i32::MAX + 1,
            next_key::<musicbrainz_queue::Model>(start.queue) + n <= i32::MAX + 1,
            (StoreView { catalog: catalog@, queue: queue@ }) == tagged(
                start,
                audio_id,
                tags@.take(i as int),
                stamp,
            ),
        decreases n - i,
    {
        let tag = &tags[i];
        proof {
            assert(tags@.take(i + 1).drop_last() =~= tags@.take(i as int));
            lemma_tagged_grows(start, audio_id, tags@.take(i as int), stamp);
        }
        if stores_tag(tag.name.as_str()) {
            let row = audio_tag::Model {
                audio_tag_id: 0,
                audio_id,
                name: tag.name.clone(),
                value: tag.value.clone(),
            };
            match catalog.audio_tags.insert(row) {
                Ok(_) => {},
                Err(e) => {
                    return Err(e);
                },
            }
            if names_artist(tag.name.as_str()) {
                match catalog.find_artist_by_name(tag.value.as_str()) {
                    Some(artist_id) => {
                        match store_audio_artist(catalog, audio_id, artist_id) {
                            Ok(()) => {},
                            Err(e) => {
                                return Err(e);
                            },
                        }
                    },
                    None => {
                        let payload = QueuePayload {
                            payload_type: PayloadType::AudioArtist,
                            id: audio_id,
                            value: tag.value.clone(),
                        };
                        match queue.add_to_queue(&payload, stamp) {
                            Ok(_) => {},
                            Err(e) => {
                                return Err(e);
                            },
                        }
                    },
                }
            }
        }
        i += 1;
    }
    assert(tags@.take(n as int) =~= tags@);
    Ok(())
}

/// Whether the extractor is to be asked about a file: the scanner wants the
/// file, and the catalog does not hold its `uri`.
pub fn wants_probe(catalog: &Catalog, file: &FileReport) -> (asked: bool)
    ensures
        asked == (wanted(*file) && !holds_uri(catalog@.audio, uri_of(file.absolute_path@))),
{
    if is_hidden(file.name.as_str()) {
        return false;
    }
    match MediaType::from_str(file.media_type.as_str()) {
        MediaType::Audio => {},
        _ => {
            return false;
        },
    }
    let uri = audio_uri(file.absolute_path.as_str());
    catalog.audio.find_by_uri(uri.as_str()).is_none()
}

/// Handles one file of the walk.
///
/// A file that is hidden or not of an audio type, one whose `uri` the
/// catalog holds, and one without an extractor's report change nothing.
/// Any other file is recorded with its kept tags; for each artist tag the
/// record is linked to the artist of that name, or a job is queued for the
/// name. Refused, with no change, when the store lacks the free ids.
pub fn ingest(
    catalog: &mut Catalog,
    queue: &mut EnrichmentQueue,
    file: &FileReport,
    stamp: i64,
) -> (outcome: Result<Visit, CatalogError>)
    requires
        old(catalog).wf(),
        old(queue).wf(),
    ensures
        final(catalog).wf(),
        final(queue).wf(),
        ({
            let before = StoreView { catalog: old(catalog)@, queue: old(queue)@ };
            let after = StoreView { catalog: final(catalog)@, queue: final(queue)@ };
            if file_fits(before, *file) {
                &&& outcome == Ok::<Visit, CatalogError>(visit_of(before, *file))
                &&& after == ingested(before, *file, stamp)
                &&& file_jobs_are_read(before, *file)
            } else {
                outcome == Err::<Visit, CatalogError>(CatalogError::Full) && after == before
            }
        }),
{
    if is_hidden(file.name.as_str()) {
        return Ok(Visit::Skipped);
    }
    match MediaType::from_str(file.media_type.as_str()) {
        MediaType::Audio => {},
        _ => {
            return Ok(Visit::Skipped);
        },
    }
    let uri = audio_uri(file.absolute_path.as_str());
    if catalog.audio.find_by_uri(uri.as_str()).is_some() {
        return Ok(Visit::Known);
    }
    let probe = match &file.probe {
        Some(probe) => probe,
        None => {
            return Ok(Visit::Unprobed);
        },
    };
    let count = probe.tags.len();
    if !catalog.audio.has_room(1) || !catalog.audio_tags.has_room(count)
        || !catalog.audio_artists.has_room(count) || !queue.has_room(count) {
        return Err(CatalogError::Full);
    }
    let format = match &probe.codec {
        Some(name) => name.clone(),
        None => String::from_str("UNKNOWN"),
    };
    let record = audio::Model {
        audio_id: 0,
        uri,
        path: file.directory.clone(),
        name: file.name.clone(),
        extension: file.extension.clone(),
        format,
        duration: probe.duration,
        channels: probe.channels,
        bits: probe.bits,
        hertz: probe.hertz,
    };
    let audio_id = match catalog.audio.insert(record) {
        Ok(id) => id,
        Err(e) => {
            return Err(e);
        },
    };
    match store_tags(catalog, queue, audio_id, &probe.tags, stamp) {
        Ok(()) => Ok(Visit::Added(audio_id)),
        Err(e) => Err(e),
    }
}

/// The store after the scanner handled an entry of the walk: only files
/// change it.
pub open spec fn visited(store: StoreView, entry: Entry, stamp: i64) -> StoreView {
    match entry {
        Entry::File(file) => ingested(store, file, stamp),
        _ => store,
    }
}

/// Whether the store has room for what the scanner does with an entry.
pub open spec fn entry_fits(store: StoreView, entry: Entry) -> bool {
    match entry {
        Entry::File(file) => file_fits(store, file),
        _ => true,
    }
}

/// The store after the scanner handled the entries in order.
pub open spec fn scanned(store: StoreView, entries: Seq<Entry>, stamp: i64) -> StoreView
    decreases entries.len(),
{
    if entries.len() == 0 {
        store
    } else {
        visited(scanned(store, entries.drop_last(), stamp), entries.last(), stamp)
    }
}

/// Whether an entry of the walk is a file, whatever its type: only files
/// count against the limit of a scan.
pub open spec fn is_file(entry: Entry) -> bool {
    entry is File || entry is Undetected
}

/// How many entries one scan handles: the entries up to the one that is the
/// `limit`-th file, or all of them where they hold fewer files. Entries
/// that are no files count for nothing.
pub open spec fn bounded(entries: Seq<Entry>, limit: int) -> int
    decreases entries.len(),
{
    if entries.len() == 0 || limit <= 0 {
        0
    } else if is_file(entries.first()) {
        1 + bounded(entries.drop_first(), limit - 1)
    } else {
        1 + bounded(entries.drop_first(), limit)
    }
}

/// A scan handles no more entries than there are.
pub proof fn lemma_bounded_range(entries: Seq<Entry>, limit: int)
    ensures
        0 <= bounded(entries, limit) <= entries.len(),
    decreases entries.len(),
{
    if entries.len() > 0 && limit > 0 {
        if is_file(entries.first()) {
            lemma_bounded_range(entries.drop_first(), limit - 1);
        } else {
            lemma_bounded_range(entries.drop_first(), limit);
        }
    }
}

/// The number of files among some entries.
pub open spec fn files_in(entries: Seq<Entry>) -> nat
    decreases entries.len(),
{
    if entries.len() == 0 {
        0
    } else if is_file(entries.first()) {
        files_in(entries.drop_first()) + 1
    } else {
        files_in(entries.drop_first())
    }
}

/// One scan handles `limit` files at most: the entries that it handles hold
/// no more files than that, and where it leaves entries out, they hold
/// exactly that many.
pub proof fn law_scan_is_bounded(entries: Seq<Entry>, limit: int)
    requires
        0 <= limit,
    ensures
        files_in(entries.take(bounded(entries, limit))) <= limit,
        bounded(entries, limit) < entries.len() ==> files_in(
            entries.take(bounded(entries, limit)),
        ) == limit,
    decreases entries.len(),
{
    lemma_bounded_range(entries, limit);
    if entries.len() > 0 && limit > 0 {
        let rest = entries.drop_first();
        let left = if is_file(entries.first()) {
            limit - 1
        } else {
            limit
        };
        law_scan_is_bounded(rest, left);
        lemma_bounded_range(rest, left);
        let handled = entries.take(1 + bounded(rest, left));
        assert(handled.first() == entries.first());
        assert(handled.drop_first() =~= rest.take(bounded(rest, left)));
    } else {
        assert(entries.take(0).len() == 0);
    }
}

/// The files that one scan may still handle.
pub struct Budget {
    left: usize,
}

impl View for Budget {
    type V = usize;

    /// The number of files that may still be handled.
    closed spec fn view(&self) -> usize {
        self.left
    }
}

impl Budget {
    /// The budget of a scan that handles `limit` files at most.
    pub fn new(limit: usize) -> (budget: Self)
        ensures
            budget@ == limit,
    {
        Budget { left: limit }
    }

    /// Whether the scan has handled as many files as it may.
    pub fn spent(&self) -> (done: bool)
        ensures
            done == (self@ == 0),
    {
        self.left == 0
    }

    /// Counts an entry that the scan handles: a file takes one from the
    /// budget, any other entry nothing.
    pub fn note(&mut self, entry: &Entry)
        ensures
            final(self)@ == if is_file(*entry) && old(self)@ > 0 {
                (old(self)@ - 1) as usize
            } else {
                old(self)@
            },
    {
        match entry {
            Entry::File(_) | Entry::Undetected => {
                if self.left > 0 {
                    self.left = self.left - 1;
                }
            },
            _ => {},
        }
    }
}

/// Handles the entries of a walk in order until `limit` files are handled,
/// and returns how many entries were handled. The scan stops at the first
/// file for which the store lacks the free ids; what was handled before it
/// stays.
pub fn scan_entries(
    catalog: &mut Catalog,
    queue: &mut EnrichmentQueue,
    entries: &Vec<Entry>,
    limit: usize,
    stamp: i64,
) -> (outcome: Result<usize, CatalogError>)
    requires
        old(catalog).wf(),
        old(queue).wf(),
    ensures
        final(catalog).wf(),
        final(queue).wf(),
        ({
            let before = StoreView { catalog: old(catalog)@, queue: old(queue)@ };
            let after = StoreView { catalog: final(catalog)@, queue: final(queue)@ };
            match outcome {
                Ok(handled) => {
                    &&& handled == bounded(entries@, limit as int)
                    &&& after == scanned(before, entries@.take(handled as int), stamp)
                    &&& forall|i: int|
                        0 <= i < handled ==> entry_jobs_are_read(
                            #[trigger] scanned(before, entries@.take(i), stamp),
                            entries@[i],
                        )
                },
                Err(e) => e == CatalogError::Full && exists|i: int|
                    0 <= i < bounded(entries@, limit as int) && after == #[trigger] scanned(
                        before,
                        entries@.take(i),
                        stamp,
                    ) && !entry_fits(after, entries@[i]),
            }
        }),
        outcome is Ok <==> forall|i: int|
            0 <= i < bounded(entries@, limit as int) ==> entry_fits(
                #[trigger] scanned(
                    StoreView { catalog: old(catalog)@, queue: old(queue)@ },
                    entries@.take(i),
                    stamp,
                ),
                entries@[i],
            ),
{
    let ghost before = StoreView { catalog: catalog@, queue: queue@ };
    let n = entries.len();
    let mut budget = Budget::new(limit);
    let mut i: usize = 0;
    assert(entries@.skip(0) =~= entries@);
    while i < n && !budget.spent()
        invariant
            catalog.wf(),
            queue.wf(),
            n == entries@.len(),
            i <= n,
            bounded(entries@, limit as int) == i + bounded(entries@.skip(i as int), budget@ as int),
            before == (StoreView { catalog: old(catalog)@, queue: old(queue)@ }),
            (StoreView { catalog: catalog@, queue: queue@ }) == scanned(
                before,
                entries@.take(i as int),
                stamp,
            ),
            forall|j: int|
                0 <= j < i ==> entry_fits(
                    #[trigger] scanned(before, entries@.take(j), stamp),
                    entries@[j],
                ) && entry_jobs_are_read(scanned(before, entries@.take(j), stamp), entries@[j]),
        decreases n - i,
    {
        proof {
            assert(entries@.take(i + 1).drop_last() =~= entries@.take(i as int));
            assert(entries@.skip(i as int).first() == entries@[i as int]);
            assert(entries@.skip(i as int).drop_first() =~= entries@.skip(i + 1));
            lemma_bounded_range(entries@.skip(i + 1), budget@ as int);
            lemma_bounded_range(entries@.skip(i + 1), budget@ - 1);
            lemma_bounded_range(entries@, limit as int);
        }
        match &entries[i] {
            Entry::File(file) => {
                match ingest(catalog, queue, file, stamp) {
                    Ok(_) => {},
                    Err(e) => {
                        return Err(e);
                    },
                }
            },
            _ => {},
        }
        budget.note(&entries[i]);
        i += 1;
    }
    Ok(i)
}

/// Whether an entry leaves the audio table `audio` as it is: it is no file
/// that the scanner wants and can record, or its `uri` is recorded.
pub open spec fn settled_in(audio: Seq<audio::Row>, entry: Entry) -> bool {
    match entry {
        Entry::File(file) => !wanted(file) || file.probe is None || holds_uri(
            audio,
            uri_of(file.absolute_path@),
        ),
        _ => true,
    }
}

/// The scanner only ever appends to the audio table: nothing, or the record
/// of a `uri` that was not there. Afterwards the entry is settled.
pub proof fn lemma_visited_audio(store: StoreView, entry: Entry, stamp: i64)
    ensures
        ({
            let after = visited(store, entry, stamp).catalog.audio;
            &&& store.catalog.audio.is_prefix_of(after)
            &&& settled_in(store.catalog.audio, entry) ==> after == store.catalog.audio
            &&& settled_in(after, entry)
            &&& distinct_uris(store.catalog.audio) ==> distinct_uris(after)
        }),
{
    match entry {
        Entry::File(file) => {
            match visit_of(store, file) {
                Visit::Added(id) => {
                    let probe = file.probe->0;
                    let row = audio_row(
                        file,
                        probe,
                        next_key::<audio::Model>(store.catalog.audio),
                    );
                    let recorded = StoreView {
                        catalog: CatalogView {
                            audio: store.catalog.audio.push(row),
                            ..store.catalog
                        },
                        queue: store.queue,
                    };
                    lemma_tagged_grows(recorded, id, probe.tags@, stamp);
                    let after = store.catalog.audio.push(row);
                    assert(after[after.len() - 1].uri == uri_of(file.absolute_path@));
                },
                _ => {},
            }
        },
        _ => {},
    }
}

/// An entry that is settled in an audio table is settled in every table
/// that the first is a prefix of.
pub proof fn lemma_settled_stays(audio: Seq<audio::Row>, more: Seq<audio::Row>, entry: Entry)
    requires
        audio.is_prefix_of(more),
        settled_in(audio, entry),
    ensures
        settled_in(more, entry),
{
    match entry {
        Entry::File(file) => {
            let uri = uri_of(file.absolute_path@);
            if holds_uri(audio, uri) {
                let i = choose|i: int| 0 <= i < audio.len() && (#[trigger] audio[i]).uri == uri;
                assert(more[i].uri == uri);
            }
        },
        _ => {},
    }
}

/// A scan only appends to the audio table, keeps its `uri`s distinct, and
/// settles each of its entries.
pub proof fn lemma_scanned_audio(store: StoreView, entries: Seq<Entry>, stamp: i64)
    ensures
        ({
            let after = scanned(store, entries, stamp).catalog.audio;
            &&& store.catalog.audio.is_prefix_of(after)
            &&& distinct_uris(store.catalog.audio) ==> distinct_uris(after)
            &&& forall|i: int| 0 <= i < entries.len() ==> settled_in(after, #[trigger] entries[i])
        }),
    decreases entries.len(),
{
    if entries.len() > 0 {
        let before = scanned(store, entries.drop_last(), stamp);
        lemma_scanned_audio(store, entries.drop_last(), stamp);
        lemma_visited_audio(before, entries.last(), stamp);
        let after = scanned(store, entries, stamp).catalog.audio;
        assert forall|i: int| 0 <= i < entries.len() implies settled_in(
            after,
            #[trigger] entries[i],
        ) by {
            if i < entries.len() - 1 {
                assert(entries.drop_last()[i] == entries[i]);
                lemma_settled_stays(before.catalog.audio, after, entries[i]);
            }
        }
    }
}

/// A scan of entries that are all settled leaves the audio table as it is.
pub proof fn lemma_settled_scan(store: StoreView, entries: Seq<Entry>, stamp: i64)
    requires
        forall|i: int|
            0 <= i < entries.len() ==> settled_in(store.catalog.audio, #[trigger] entries[i]),
    ensures
        scanned(store, entries, stamp).catalog.audio == store.catalog.audio,
    decreases entries.len(),
{
    if entries.len() > 0 {
        lemma_settled_scan(store, entries.drop_last(), stamp);
        lemma_visited_audio(scanned(store, entries.drop_last(), stamp), entries.last(), stamp);
    }
}

/// Scanning never records a `uri` twice: a scan keeps the `uri`s of the
/// audio table distinct, and a second scan of the same entries adds no
/// audio record.
pub proof fn law_rescan_adds_no_audio(
    store: StoreView,
    entries: Seq<Entry>,
    first: i64,
    second: i64,
)
    requires
        distinct_uris(store.catalog.audio),
    ensures
        distinct_uris(scanned(store, entries, first).catalog.audio),
        scanned(scanned(store, entries, first), entries, second).catalog.audio == scanned(
            store,
            entries,
            first,
        ).catalog.audio,
{
    lemma_scanned_audio(store, entries, first);
    lemma_settled_scan(scanned(store, entries, first), entries, second);
}

} // verus!
