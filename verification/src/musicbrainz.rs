//! The resolver: drains the enrichment queue under the rate limit, settles a
//! job from the catalog where the artist is known, and otherwise hands a
//! search to the caller and stores what the external directory answered.

use crate::catalog::{
    directories_of, first_area_named, first_artist_named, lemma_first_artist_push, Catalog,
    CatalogView,
};
use crate::database::{RiaArtistType, RiaGender};
use crate::entities::{artist, artist_area, artist_directory, audio_artist, musicbrainz_queue};
use crate::limiter::{allowed, remaining, RateLimiter, MINIMUM_DELAY};
use crate::media::{backfilled, linked, store_artist_directory, store_audio_artist};
use crate::payload::{parsed_payload, PayloadView, QueuePayload};
use crate::queue::{claimed, next_pending, without_job, EnrichmentQueue};
use crate::table::{next_key, opt_id, CatalogError};
use crate::text::{escape, escaped};
use vstd::prelude::*;

verus! {

/// The area of a candidate, as the external directory reports it.
pub struct CandidateArea {
    pub name: String,
    pub sort_name: String,
    pub disambiguation: String,
}

/// One artist that the external directory returned for a search.
pub struct Candidate {
    pub id: String,
    pub name: String,
    pub sort_name: String,
    pub disambiguation: String,
    pub area: Option<CandidateArea>,
    pub artist_type: Option<RiaArtistType>,
    pub gender: Option<RiaGender>,
}

/// How a search at the external directory ended.
pub enum SearchOutcome {
    /// The call failed.
    Failed,
    /// The directory answered with these candidates, best first by its own
    /// account.
    Answered(Vec<Candidate>),
}

/// A search that the caller is asked to make.
pub struct Lookup {
    /// The job that waits for the answer.
    pub job: i32,
    /// The audio record that names the artist.
    pub audio_id: i32,
    /// The artist's name as the audio file gives it.
    pub name: String,
    /// The escaped name. It is what the external directory is asked for,
    /// and is used for nothing else.
    pub query: String,
}

/// What the caller does after one step of the resolver.
pub enum Action {
    /// Sleep this many nanoseconds, then step again.
    Sleep(u64),
    /// The claimed job was settled from the catalog and completed: step
    /// again at once.
    Settled { job: i32, artist_id: i32 },
    /// Call the external directory, then hand its answer to
    /// [`store_candidate`].
    Search(Lookup),
    /// The claimed job has no readable payload. It stays claimed.
    Unreadable { job: i32 },
}

/// The catalog after an audio record was linked to an artist and the artist
/// to the audio record's directories.
pub open spec fn settled(
    catalog: CatalogView,
    audio_id: int,
    artist_id: int,
    stamp: i64,
) -> CatalogView {
    let with_link = linked(catalog, audio_id, artist_id);
    CatalogView {
        artist_directories: backfilled(
            with_link.artist_directories,
            with_link.audio_directories,
            audio_id,
            artist_id,
            stamp,
        ),
        ..with_link
    }
}

/// Whether the link tables have the free ids that settling needs: one link
/// to the artist, and one link for each directory of the audio record.
pub open spec fn room_to_settle(catalog: CatalogView, audio_id: int) -> bool {
    &&& next_key::<audio_artist::Model>(catalog.audio_artists) <= i32::MAX
    &&& next_key::<artist_directory::Model>(catalog.artist_directories) + directories_of(
        catalog.audio_directories,
        audio_id,
    ).len() <= i32::MAX + 1
}

/// Links an audio record to an artist, and the artist to the directories of
/// the audio record. Refused, with no change, when the link tables lack the
/// free ids.
pub fn settle(
    catalog: &mut Catalog,
    audio_id: i32,
    artist_id: i32,
    stamp: i64,
) -> (outcome: Result<(), CatalogError>)
    requires
        old(catalog).wf(),
    ensures
        final(catalog).wf(),
        match outcome {
            Ok(()) => final(catalog)@ == settled(
                old(catalog)@,
                audio_id as int,
                artist_id as int,
                stamp,
            ),
            Err(e) => e == CatalogError::Full && final(catalog)@ == old(catalog)@,
        },
        outcome is Ok <==> room_to_settle(old(catalog)@, audio_id as int),
{
    let needed = catalog.directories_of(audio_id).len();
    if !catalog.audio_artists.has_room(1) || !catalog.artist_directories.has_room(needed) {
        return Err(CatalogError::Full);
    }
    match store_audio_artist(catalog, audio_id, artist_id) {
        Ok(()) => store_artist_directory(catalog, audio_id, artist_id, stamp),
        Err(e) => Err(e),
    }
}

/// The id of the artist that a name resolves to in the catalog: the first
/// artist stored under exactly this name.
pub open spec fn local_artist(catalog: CatalogView, name: Seq<char>) -> Option<int> {
    first_artist_named(catalog.artists, name)
}

/// Looks an artist up in the catalog by the name that the audio file gives.
pub fn load_artist_by_name(catalog: &Catalog, name: &str) -> (found: Option<i32>)
    ensures
        opt_id(found) == local_artist(catalog@, name@),
{
    catalog.find_artist_by_name(name)
}

/// The row for a new area, as a candidate describes it.
pub open spec fn area_row(area: CandidateArea, id: int) -> artist_area::Row {
    artist_area::Row {
        artist_area_id: id,
        area_type: Seq::empty(),
        name: area.name@,
        sort_name: area.sort_name@,
        disambiguation: area.disambiguation@,
    }
}

/// The area table after a candidate's area was looked up by name and, where
/// it was not there, added.
pub open spec fn areas_with(areas: Seq<artist_area::Row>, area: Option<CandidateArea>) -> Seq<
    artist_area::Row,
> {
    match area {
        Some(a) => if first_area_named(areas, a.name@) is Some {
            areas
        } else {
            areas.push(area_row(a, next_key::<artist_area::Model>(areas)))
        },
        None => areas,
    }
}

/// The id of a candidate's area: that of the first area of its name, or of
/// the area added for it.
pub open spec fn area_id_of(areas: Seq<artist_area::Row>, area: Option<CandidateArea>) -> Option<
    int,
> {
    match area {
        Some(a) => match first_area_named(areas, a.name@) {
            Some(id) => Some(id),
            None => Some(next_key::<artist_area::Model>(areas)),
        },
        None => None,
    }
}

/// The row for a new artist, stored under the name that the audio file
/// gave: with the first candidate's data, or, where the directory returned
/// no candidate, with the name alone.
pub open spec fn artist_row(
    name: Seq<char>,
    candidates: Seq<Candidate>,
    area_id: Option<int>,
    id: int,
) -> artist::Row {
    if candidates.len() > 0 {
        let first = candidates[0];
        artist::Row {
            artist_id: id,
            name,
            musicbrainz_name: first.name@,
            musicbrainz_id: first.id@,
            sort_name: first.sort_name@,
            disambiguation_comment: first.disambiguation@,
            artist_area_id: area_id,
            artist_type: first.artist_type,
            gender: first.gender,
        }
    } else {
        artist::Row {
            artist_id: id,
            name,
            musicbrainz_name: Seq::empty(),
            musicbrainz_id: Seq::empty(),
            sort_name: Seq::empty(),
            disambiguation_comment: Seq::empty(),
            artist_area_id: None,
            artist_type: None,
            gender: None,
        }
    }
}

/// The area of the first candidate, if there is a candidate and it has one.
pub open spec fn first_area(candidates: Seq<Candidate>) -> Option<CandidateArea> {
    if candidates.len() > 0 {
        candidates[0].area
    } else {
        None
    }
}

/// The catalog after the directory's answer for an audio record's artist was
/// stored: the first candidate's area where it is new, the artist, the link
/// from the audio record, and the links to its directories.
pub open spec fn resolved(
    catalog: CatalogView,
    audio_id: int,
    name: Seq<char>,
    candidates: Seq<Candidate>,
    stamp: i64,
) -> CatalogView {
    let area = first_area(candidates);
    let artist_id = next_key::<artist::Model>(catalog.artists);
    let with_artist = CatalogView {
        artist_areas: areas_with(catalog.artist_areas, area),
        artists: catalog.artists.push(
            artist_row(name, candidates, area_id_of(catalog.artist_areas, area), artist_id),
        ),
        ..catalog
    };
    settled(with_artist, audio_id, artist_id, stamp)
}

/// Whether the catalog has the free ids that storing an answer takes: one
/// area, one artist, and what settling needs.
pub open spec fn room_to_resolve(catalog: CatalogView, audio_id: int) -> bool {
    &&& next_key::<artist_area::Model>(catalog.artist_areas) <= i32::MAX
    &&& next_key::<artist::Model>(catalog.artists) <= i32::MAX
    &&& room_to_settle(catalog, audio_id)
}

/// Stores the answer of the external directory to a [`Lookup`].
///
/// After a failed call nothing changes: the job stays claimed. Otherwise
/// only the first candidate is taken. Its area is added unless an area of
/// that name is stored, the artist is added, the audio record is linked to
/// it, the artist to the audio record's directories, and the job is
/// completed. An empty answer adds an artist that has the name and nothing
/// else. Either way the artist is stored under the name that the audio file
/// gave, so that the next job for this name finds it in the catalog.
/// Refused, with no change, when the catalog lacks the free ids. Returns
/// the new artist's id.
pub fn store_candidate(
    catalog: &mut Catalog,
    queue: &mut EnrichmentQueue,
    lookup: &Lookup,
    answer: &SearchOutcome,
    stamp: i64,
) -> (outcome: Result<Option<i32>, CatalogError>)
    requires
        old(catalog).wf(),
        old(queue).wf(),
    ensures
        final(catalog).wf(),
        final(queue).wf(),
        match *answer {
            SearchOutcome::Failed => {
                &&& outcome == Ok::<Option<i32>, CatalogError>(None)
                &&& final(catalog)@ == old(catalog)@
                &&& final(queue)@ == old(queue)@
            },
            SearchOutcome::Answered(candidates) => if room_to_resolve(
                old(catalog)@,
                lookup.audio_id as int,
            ) {
                &&& outcome matches Ok(Some(artist_id))
                &&& artist_id == next_key::<artist::Model>(old(catalog)@.artists)
                &&& final(catalog)@ == resolved(
                    old(catalog)@,
                    lookup.audio_id as int,
                    lookup.name@,
                    candidates@,
                    stamp,
                )
                &&& final(queue)@ == without_job(old(queue)@, lookup.job as int)
            } else {
                &&& outcome == Err::<Option<i32>, CatalogError>(CatalogError::Full)
                &&& final(catalog)@ == old(catalog)@
                &&& final(queue)@ == old(queue)@
            },
        },
{
    let candidates = match answer {
        SearchOutcome::Failed => {
            return Ok(None);
        },
        SearchOutcome::Answered(candidates) => candidates,
    };
    let needed = catalog.directories_of(lookup.audio_id).len();
    if !catalog.artist_areas.has_room(1) || !catalog.artists.has_room(1)
        || !catalog.audio_artists.has_room(1) || !catalog.artist_directories.has_room(needed) {
        return Err(CatalogError::Full);
    }
    let row = if candidates.len() > 0 {
        let first = &candidates[0];
        let area_id = match &first.area {
            Some(area) => match catalog.find_area_by_name(area.name.as_str()) {
                Some(id) => Some(id),
                None => {
                    let added = artist_area::Model {
                        artist_area_id: 0,
                        area_type: String::new(),
                        name: area.name.clone(),
                        sort_name: area.sort_name.clone(),
                        disambiguation: area.disambiguation.clone(),
                    };
                    match catalog.artist_areas.insert(added) {
                        Ok(id) => Some(id),
                        Err(e) => {
                            return Err(e);
                        },
                    }
                },
            },
            None => None,
        };
        artist::Model {
            artist_id: 0,
            name: lookup.name.clone(),
            musicbrainz_name: first.name.clone(),
            musicbrainz_id: first.id.clone(),
            sort_name: first.sort_name.clone(),
            disambiguation_comment: first.disambiguation.clone(),
            artist_area_id: area_id,
            artist_type: first.artist_type,
            gender: first.gender,
        }
    } else {
        artist::Model {
            artist_id: 0,
            name: lookup.name.clone(),
            musicbrainz_name: String::new(),
            musicbrainz_id: String::new(),
            sort_name: String::new(),
            disambiguation_comment: String::new(),
            artist_area_id: None,
            artist_type: None,
            gender: None,
        }
    };
    let artist_id = match catalog.artists.insert(row) {
        Ok(id) => id,
        Err(e) => {
            return Err(e);
        },
    };
    match settle(catalog, lookup.audio_id, artist_id, stamp) {
        Ok(()) => {},
        Err(e) => {
            return Err(e);
        },
    }
    queue.complete(lookup.job);
    Ok(Some(artist_id))
}

/// What resolving a claimed job does, given the job's payload: where the
/// artist is known to the catalog the job is settled and completed, and no
/// call is made; otherwise the call is recorded at `now` and a search is
/// handed out.
pub open spec fn resolution(
    last: u64,
    catalog: CatalogView,
    queue: Seq<musicbrainz_queue::Row>,
    job: int,
    payload: PayloadView,
    now: u64,
    stamp: i64,
    outcome: Result<Action, CatalogError>,
    last_after: u64,
    catalog_after: CatalogView,
    queue_after: Seq<musicbrainz_queue::Row>,
) -> bool {
    match local_artist(catalog, payload.value) {
        Some(artist_id) => if room_to_settle(catalog, payload.id as int) {
            &&& outcome matches Ok(Action::Settled { job: done, artist_id: linked_to })
            &&& done == job
            &&& linked_to == artist_id
            &&& last_after == last
            &&& catalog_after == settled(catalog, payload.id as int, artist_id, stamp)
            &&& queue_after == without_job(queue, job)
        } else {
            &&& outcome == Err::<Action, CatalogError>(CatalogError::Full)
            &&& last_after == last
            &&& catalog_after == catalog
            &&& queue_after == queue
        },
        None => {
            &&& outcome matches Ok(Action::Search(lookup))
            &&& lookup.job == job
            &&& lookup.audio_id == payload.id
            &&& lookup.name@ == payload.value
            &&& lookup.query@ == escaped(payload.value)
            &&& last_after == now
            &&& catalog_after == catalog
            &&& queue_after == queue
        },
    }
}

/// Resolves the claimed job `job`, whose payload is `payload`.
pub fn resolve_job(
    limiter: &mut RateLimiter,
    catalog: &mut Catalog,
    queue: &mut EnrichmentQueue,
    job: i32,
    payload: &QueuePayload,
    now: u64,
    stamp: i64,
) -> (outcome: Result<Action, CatalogError>)
    requires
        old(catalog).wf(),
        old(queue).wf(),
    ensures
        final(catalog).wf(),
        final(queue).wf(),
        resolution(
            old(limiter)@,
            old(catalog)@,
            old(queue)@,
            job as int,
            payload@,
            now,
            stamp,
            outcome,
            final(limiter)@,
            final(catalog)@,
            final(queue)@,
        ),
{
    match load_artist_by_name(catalog, payload.value.as_str()) {
        Some(artist_id) => {
            match settle(catalog, payload.id, artist_id, stamp) {
                Ok(()) => {
                    queue.complete(job);
                    Ok(Action::Settled { job, artist_id })
                },
                Err(e) => Err(e),
            }
        },
        None => {
            limiter.record(now);
            let query = escape(payload.value.as_str());
            Ok(
                Action::Search(
                    Lookup { job, audio_id: payload.id, name: payload.value.clone(), query },
                ),
            )
        },
    }
}

/// The payload that a queue row carries, where it has one that can be read.
pub open spec fn payload_of(row: musicbrainz_queue::Row) -> Option<PayloadView> {
    match row.payload {
        Some(text) => parsed_payload(text),
        None => None,
    }
}

/// What one step of the resolver does.
///
/// While less than [`MINIMUM_DELAY`] has passed since the last call
/// to the external directory, nothing is claimed and the step asks to sleep
/// for the rest of the interval. Otherwise the oldest pending job is
/// claimed; with no pending job the step asks to sleep for the whole
/// interval. A claimed job without a readable payload stays claimed; any
/// other is resolved as [`resolution`] says.
pub open spec fn stepped(
    last: u64,
    catalog: CatalogView,
    queue: Seq<musicbrainz_queue::Row>,
    now: u64,
    stamp: i64,
    outcome: Result<Action, CatalogError>,
    last_after: u64,
    catalog_after: CatalogView,
    queue_after: Seq<musicbrainz_queue::Row>,
) -> bool {
    if !allowed(last, now) {
        &&& outcome matches Ok(Action::Sleep(nanos))
        &&& nanos == remaining(last, now)
        &&& last_after == last
        &&& catalog_after == catalog
        &&& queue_after == queue
    } else {
        match next_pending(queue) {
            None => {
                &&& outcome matches Ok(Action::Sleep(nanos))
                &&& nanos == MINIMUM_DELAY
                &&& last_after == last
                &&& catalog_after == catalog
                &&& queue_after == queue
            },
            Some(i) => {
                let row = queue[i];
                let taken = queue.update(i, claimed(row, stamp));
                match payload_of(row) {
                    None => {
                        &&& outcome matches Ok(Action::Unreadable { job })
                        &&& job == row.musicbrainz_queue_id
                        &&& last_after == last
                        &&& catalog_after == catalog
                        &&& queue_after == taken
                    },
                    Some(payload) => resolution(
                        last,
                        catalog,
                        taken,
                        row.musicbrainz_queue_id,
                        payload,
                        now,
                        stamp,
                        outcome,
                        last_after,
                        catalog_after,
                        queue_after,
                    ),
                }
            },
        }
    }
}

/// One step of the resolver at the clock reading `now`, in nanoseconds; rows
/// are stamped with `stamp`.
/// The caller does what the returned [`Action`] says, and steps again.
pub fn process_queue(
    limiter: &mut RateLimiter,
    catalog: &mut Catalog,
    queue: &mut EnrichmentQueue,
    now: u64,
    stamp: i64,
) -> (outcome: Result<Action, CatalogError>)
    requires
        old(catalog).wf(),
        old(queue).wf(),
    ensures
        final(catalog).wf(),
        final(queue).wf(),
        stepped(
            old(limiter)@,
            old(catalog)@,
            old(queue)@,
            now,
            stamp,
            outcome,
            final(limiter)@,
            final(catalog)@,
            final(queue)@,
        ),
{
    if !limiter.allow(now) {
        return Ok(Action::Sleep(limiter.wait(now)));
    }
    let item = match queue.claim(stamp) {
        Some(item) => item,
        None => {
            return Ok(Action::Sleep(MINIMUM_DELAY));
        },
    };
    let job = item.musicbrainz_queue_id;
    let payload = match &item.payload {
        Some(text) => QueuePayload::from_json(text.as_str()),
        None => None,
    };
    match payload {
        Some(payload) => resolve_job(limiter, catalog, queue, job, &payload, now, stamp),
        None => Ok(Action::Unreadable { job }),
    }
}

/// Whether a step handed out a search.
pub open spec fn is_search(outcome: Result<Action, CatalogError>) -> bool {
    outcome matches Ok(Action::Search(_))
}

/// A step hands out a search only when the limiter allows a call, and then
/// records the call at the time of the step, before the call is made. Every
/// other step leaves the limiter as it is.
pub proof fn law_search_is_recorded(
    last: u64,
    catalog: CatalogView,
    queue: Seq<musicbrainz_queue::Row>,
    now: u64,
    stamp: i64,
    outcome: Result<Action, CatalogError>,
    last_after: u64,
    catalog_after: CatalogView,
    queue_after: Seq<musicbrainz_queue::Row>,
)
    requires
        stepped(last, catalog, queue, now, stamp, outcome, last_after, catalog_after, queue_after),
    ensures
        is_search(outcome) ==> allowed(last, now) && last_after == now,
        !is_search(outcome) ==> last_after == last,
{
}

/// Consecutive calls to the external directory are spaced by the interval:
/// where a step at `first` hands out a search, and a later step, reached
/// through steps that hand out none, hands out the next at `second`, the two
/// lie at least [`MINIMUM_DELAY`] apart.
pub proof fn law_searches_are_spaced(
    last: u64,
    catalog: CatalogView,
    queue: Seq<musicbrainz_queue::Row>,
    first: u64,
    stamp: i64,
    outcome: Result<Action, CatalogError>,
    last_after: u64,
    catalog_after: CatalogView,
    queue_after: Seq<musicbrainz_queue::Row>,
    catalog_later: CatalogView,
    queue_later: Seq<musicbrainz_queue::Row>,
    second: u64,
    stamp_later: i64,
    outcome_later: Result<Action, CatalogError>,
    last_final: u64,
    catalog_final: CatalogView,
    queue_final: Seq<musicbrainz_queue::Row>,
)
    requires
        stepped(
            last,
            catalog,
            queue,
            first,
            stamp,
            outcome,
            last_after,
            catalog_after,
            queue_after,
        ),
        is_search(outcome),
        stepped(
            last_after,
            catalog_later,
            queue_later,
            second,
            stamp_later,
            outcome_later,
            last_final,
            catalog_final,
            queue_final,
        ),
        is_search(outcome_later),
    ensures
        second - first >= MINIMUM_DELAY,
{
}

/// Resolving a job for an artist that the catalog knows makes no call to
/// the external directory: no search is handed out, and the limiter records
/// nothing.
pub proof fn law_known_artist_needs_no_call(
    last: u64,
    catalog: CatalogView,
    queue: Seq<musicbrainz_queue::Row>,
    job: int,
    payload: PayloadView,
    now: u64,
    stamp: i64,
    outcome: Result<Action, CatalogError>,
    last_after: u64,
    catalog_after: CatalogView,
    queue_after: Seq<musicbrainz_queue::Row>,
)
    requires
        resolution(
            last,
            catalog,
            queue,
            job,
            payload,
            now,
            stamp,
            outcome,
            last_after,
            catalog_after,
            queue_after,
        ),
        local_artist(catalog, payload.value) is Some,
    ensures
        !is_search(outcome),
        last_after == last,
{
}

/// An artist that was stored for a name is found under that name: after the
/// answer for `name` was stored, the name resolves in the catalog, to the
/// new artist where it resolved to none before, so that a later job for the
/// same name needs no call and adds no artist. What another name resolved
/// to before, it resolves to afterwards.
pub proof fn law_stored_artist_is_found(
    catalog: CatalogView,
    audio_id: int,
    name: Seq<char>,
    candidates: Seq<Candidate>,
    stamp: i64,
    other: Seq<char>,
)
    ensures
        ({
            let after = resolved(catalog, audio_id, name, candidates, stamp);
            &&& local_artist(after, name) is Some
            &&& local_artist(catalog, name) is None ==> local_artist(after, name) == Some(
                next_key::<artist::Model>(catalog.artists),
            )
            &&& local_artist(catalog, other) is Some ==> local_artist(after, other)
                == local_artist(catalog, other)
        }),
{
    let area = first_area(candidates);
    let row = artist_row(
        name,
        candidates,
        area_id_of(catalog.artist_areas, area),
        next_key::<artist::Model>(catalog.artists),
    );
    lemma_first_artist_push(catalog.artists, row, name);
    lemma_first_artist_push(catalog.artists, row, other);
}

} // verus!
