use ria::catalog::Catalog;
use ria::limiter::{RateLimiter, MINIMUM_DELAY};
use ria::media::{scan_media_files, ScanError, ScanReport};
use ria::musicbrainz::{
    load_artist_by_name, process_queue, store_candidate, Action, Candidate, CandidateArea,
    Lookup, SearchOutcome,
};
use ria::database::{RiaArtistType, RiaGender};
use ria::entities::artist;
use ria::queue::EnrichmentQueue;
use ria::scanner::{ingest, scan_entries, Budget, Entry, FileReport, Probe, Tag, Visit};
use ria::table::CatalogError;

/// One second of the resolver's clock.
const SECOND: u64 = 1_000_000_000;

fn tag(name: &str, value: &str) -> Tag {
    Tag { name: name.to_string(), value: value.to_string() }
}

fn flac(directory: &str, name: &str, tags: Vec<Tag>) -> Entry {
    Entry::File(FileReport {
        media_type: "audio/x-flac".to_string(),
        absolute_path: format!("{}/{}", directory, name),
        directory: directory.to_string(),
        name: name.to_string(),
        extension: "flac".to_string(),
        probe: Some(Probe {
            codec: Some("Free Lossless Audio Codec".to_string()),
            duration: 215,
            channels: 2,
            bits: 16,
            hertz: 44100,
            tags,
        }),
    })
}

fn known_artist(catalog: &mut Catalog, name: &str) -> i32 {
    catalog
        .artists
        .insert(artist::Model {
            artist_id: 0,
            name: name.to_string(),
            musicbrainz_name: name.to_string(),
            musicbrainz_id: String::new(),
            sort_name: name.to_string(),
            disambiguation_comment: String::new(),
            artist_area_id: None,
            artist_type: None,
            gender: None,
        })
        .unwrap()
}

fn candidate(name: &str, area: Option<&str>) -> Candidate {
    Candidate {
        id: "a74b1b7f-71a5-4011-9441-d0b5e4122711".to_string(),
        name: name.to_string(),
        sort_name: format!("{}, The", name),
        disambiguation: "band".to_string(),
        area: area.map(|a| CandidateArea {
            name: a.to_string(),
            sort_name: a.to_string(),
            disambiguation: String::new(),
        }),
        artist_type: Some(RiaArtistType::Group),
        gender: Some(RiaGender::Other),
    }
}

#[test]
fn scanning_the_same_tree_twice_inserts_each_uri_once() {
    let mut catalog = Catalog::new();
    let mut queue = EnrichmentQueue::new();
    let entries = vec![
        Entry::Directory,
        flac("/lib", "a.flac", vec![]),
        flac("/lib", "b.flac", vec![]),
        flac("/lib", "a.flac", vec![]),
    ];
    assert_eq!(scan_entries(&mut catalog, &mut queue, &entries, 100, 1), Ok(4));
    assert_eq!(catalog.audio.rows().len(), 2);
    assert_eq!(scan_entries(&mut catalog, &mut queue, &entries, 100, 2), Ok(4));
    assert_eq!(catalog.audio.rows().len(), 2);
    assert_eq!(catalog.audio.rows().get(0).uri, "file:///lib/a%2Eflac");
    assert_eq!(catalog.audio.rows().get(1).uri, "file:///lib/b%2Eflac");
    assert_eq!(catalog.audio.rows().get(0).audio_id, 1);
    assert_eq!(catalog.audio.rows().get(1).audio_id, 2);
}

#[test]
fn grouping_two_files_of_one_directory() {
    let mut catalog = Catalog::new();
    let mut queue = EnrichmentQueue::new();
    let entries = vec![flac("/lib", "a.flac", vec![]), flac("/lib", "b.flac", vec![])];
    let report = scan_media_files(&mut catalog, &mut queue, &entries, 100, 7);
    assert_eq!(report, Ok(ScanReport { handled: 2, directories: 1 }));
    assert_eq!(catalog.directories.len(), 1);
    let directory = catalog.directories.get(0);
    assert_eq!(directory.path, "/lib");
    assert_eq!(directory.name, "lib");
    assert_eq!(directory.created, 7);
    assert_eq!(directory.updated, 7);
    assert_eq!(catalog.audio_directories.len(), 2);
    assert_eq!(catalog.audio_directories.get(0).audio_id, 1);
    assert_eq!(catalog.audio_directories.get(1).audio_id, 2);
    assert_eq!(catalog.audio_directories.get(0).directory_id, directory.directory_id);
    assert_eq!(catalog.audio_directories.get(1).directory_id, directory.directory_id);
}

#[test]
fn grouping_is_repeated_by_each_scan() {
    let mut catalog = Catalog::new();
    let mut queue = EnrichmentQueue::new();
    let entries = vec![
        flac("/lib/one", "a.flac", vec![]),
        flac("/lib/two", "b.flac", vec![]),
        flac("/lib/one", "c.flac", vec![]),
    ];
    let first = scan_media_files(&mut catalog, &mut queue, &entries, 100, 1);
    assert_eq!(first, Ok(ScanReport { handled: 3, directories: 2 }));
    assert_eq!(catalog.directories.get(0).name, "one");
    assert_eq!(catalog.directories.get(1).name, "two");
    assert_eq!(catalog.audio_directories.len(), 3);
    assert_eq!(catalog.audio_directories.get(0).audio_id, 1);
    assert_eq!(catalog.audio_directories.get(1).audio_id, 3);
    assert_eq!(catalog.audio_directories.get(2).audio_id, 2);
    let second = scan_media_files(&mut catalog, &mut queue, &entries, 100, 2);
    assert_eq!(second, Ok(ScanReport { handled: 3, directories: 2 }));
    assert_eq!(catalog.audio.rows().len(), 3);
    assert_eq!(catalog.directories.len(), 4);
    assert_eq!(catalog.audio_directories.len(), 6);
}

#[test]
fn the_scan_stops_at_its_limit() {
    let mut catalog = Catalog::new();
    let mut queue = EnrichmentQueue::new();
    let entries = vec![
        flac("/lib", "a.flac", vec![]),
        Entry::Unreadable,
        flac("/lib", "b.flac", vec![]),
    ];
    // Only files count: the first file uses the limit of one up.
    assert_eq!(scan_entries(&mut catalog, &mut queue, &entries, 1, 1), Ok(1));
    assert_eq!(catalog.audio.rows().len(), 1);
    assert_eq!(scan_entries(&mut catalog, &mut queue, &entries, 0, 1), Ok(0));
    // With a limit of two the entry between the files is passed on the way.
    assert_eq!(scan_entries(&mut catalog, &mut queue, &entries, 2, 1), Ok(3));
    assert_eq!(catalog.audio.rows().len(), 2);
    assert_eq!(scan_entries(&mut catalog, &mut queue, &entries, 3, 1), Ok(3));
}

#[test]
fn directories_do_not_count_against_the_limit() {
    let mut catalog = Catalog::new();
    let mut queue = EnrichmentQueue::new();
    let entries = vec![
        Entry::Directory,
        Entry::Directory,
        Entry::Unreadable,
        flac("/lib", "a.flac", vec![]),
        Entry::Directory,
        Entry::Undetected,
        flac("/lib", "b.flac", vec![]),
        flac("/lib", "c.flac", vec![]),
    ];
    assert_eq!(scan_entries(&mut catalog, &mut queue, &entries, 1, 1), Ok(4));
    assert_eq!(catalog.audio.rows().len(), 1);
    // A file of no detected type is a file all the same.
    assert_eq!(scan_entries(&mut catalog, &mut queue, &entries, 2, 1), Ok(6));
    assert_eq!(catalog.audio.rows().len(), 1);
    assert_eq!(scan_entries(&mut catalog, &mut queue, &entries, 3, 1), Ok(7));
    assert_eq!(catalog.audio.rows().len(), 2);
    assert_eq!(scan_entries(&mut catalog, &mut queue, &entries, 25_000, 1), Ok(8));
    assert_eq!(catalog.audio.rows().len(), 3);

    let mut budget = Budget::new(2);
    let mut walked = 0;
    for entry in &entries {
        if budget.spent() {
            break;
        }
        budget.note(entry);
        walked += 1;
    }
    assert_eq!(walked, 6);
    assert!(Budget::new(0).spent());
    assert!(!Budget::new(1).spent());
}

#[test]
fn only_readable_audio_files_are_recorded() {
    let mut catalog = Catalog::new();
    let mut queue = EnrichmentQueue::new();
    let mut image = match flac("/lib", "cover.jpg", vec![]) {
        Entry::File(file) => file,
        _ => unreachable!(),
    };
    image.media_type = "image/jpeg".to_string();
    assert_eq!(ingest(&mut catalog, &mut queue, &image, 1), Ok(Visit::Skipped));
    let mut text = match flac("/lib", "album.cue", vec![]) {
        Entry::File(file) => file,
        _ => unreachable!(),
    };
    text.media_type = "application/octet-stream".to_string();
    assert_eq!(ingest(&mut catalog, &mut queue, &text, 1), Ok(Visit::Skipped));
    let hidden = match flac("/lib", ".a.flac", vec![]) {
        Entry::File(file) => file,
        _ => unreachable!(),
    };
    assert_eq!(ingest(&mut catalog, &mut queue, &hidden, 1), Ok(Visit::Skipped));
    let mut broken = match flac("/lib", "broken.flac", vec![]) {
        Entry::File(file) => file,
        _ => unreachable!(),
    };
    broken.probe = None;
    assert_eq!(ingest(&mut catalog, &mut queue, &broken, 1), Ok(Visit::Unprobed));
    assert_eq!(catalog.audio.rows().len(), 0);
    let good = match flac("/lib", "a.flac", vec![]) {
        Entry::File(file) => file,
        _ => unreachable!(),
    };
    assert_eq!(ingest(&mut catalog, &mut queue, &good, 1), Ok(Visit::Added(1)));
    assert_eq!(ingest(&mut catalog, &mut queue, &good, 2), Ok(Visit::Known));
    assert_eq!(catalog.audio.rows().len(), 1);
}

#[test]
fn a_recorded_file_keeps_what_the_probe_reported() {
    let mut catalog = Catalog::new();
    let mut queue = EnrichmentQueue::new();
    let mut file = match flac("/music/Ok Computer", "01 Airbag.flac", vec![]) {
        Entry::File(file) => file,
        _ => unreachable!(),
    };
    assert_eq!(ingest(&mut catalog, &mut queue, &file, 1), Ok(Visit::Added(1)));
    let row = catalog.audio.rows().get(0);
    assert_eq!(row.uri, "file:///music/Ok%20Computer/01%20Airbag%2Eflac");
    assert_eq!(row.path, "/music/Ok Computer");
    assert_eq!(row.name, "01 Airbag.flac");
    assert_eq!(row.extension, "flac");
    assert_eq!(row.format, "Free Lossless Audio Codec");
    assert_eq!(row.duration, 215);
    assert_eq!(row.channels, 2);
    assert_eq!(row.bits, 16);
    assert_eq!(row.hertz, 44100);
    file.absolute_path = "/music/Ok Computer/02.flac".to_string();
    file.name = "02.flac".to_string();
    file.probe.as_mut().unwrap().codec = None;
    assert_eq!(ingest(&mut catalog, &mut queue, &file, 1), Ok(Visit::Added(2)));
    assert_eq!(catalog.audio.rows().get(1).format, "UNKNOWN");
}

#[test]
fn only_listed_tags_are_kept() {
    let mut catalog = Catalog::new();
    let mut queue = EnrichmentQueue::new();
    let entries = vec![flac(
        "/lib",
        "a.flac",
        vec![
            tag("title", "Airbag"),
            tag("comment", "ripped at home"),
            tag("album", "OK Computer"),
            tag("Artist", "Radiohead"),
            tag("track-number", "1"),
        ],
    )];
    assert_eq!(scan_entries(&mut catalog, &mut queue, &entries, 10, 1), Ok(1));
    assert_eq!(catalog.audio_tags.len(), 3);
    assert_eq!(catalog.audio_tags.get(0).name, "title");
    assert_eq!(catalog.audio_tags.get(0).value, "Airbag");
    assert_eq!(catalog.audio_tags.get(0).audio_id, 1);
    assert_eq!(catalog.audio_tags.get(1).name, "album");
    assert_eq!(catalog.audio_tags.get(2).name, "track-number");
    assert_eq!(catalog.audio_tags.get(2).audio_tag_id, 3);
    assert_eq!(queue.rows().len(), 0);
    assert_eq!(catalog.audio_artists.len(), 0);
}

#[test]
fn a_known_artist_is_linked_during_the_scan() {
    let mut catalog = Catalog::new();
    let mut queue = EnrichmentQueue::new();
    let radiohead = known_artist(&mut catalog, "Radiohead");
    let entries = vec![flac("/lib", "a.flac", vec![tag("artist", "Radiohead")])];
    assert_eq!(scan_entries(&mut catalog, &mut queue, &entries, 10, 1), Ok(1));
    assert_eq!(queue.rows().len(), 0);
    assert_eq!(catalog.audio_artists.len(), 1);
    assert_eq!(catalog.audio_artists.get(0).audio_id, 1);
    assert_eq!(catalog.audio_artists.get(0).artist_id, radiohead);
}

#[test]
fn an_unknown_artist_is_queued_once() {
    let mut catalog = Catalog::new();
    let mut queue = EnrichmentQueue::new();
    let entries = vec![flac(
        "/lib",
        "a.flac",
        vec![tag("artist", "Portishead"), tag("artist", "Portishead")],
    )];
    assert_eq!(scan_entries(&mut catalog, &mut queue, &entries, 10, 42), Ok(1));
    assert_eq!(catalog.audio_tags.len(), 2);
    assert_eq!(queue.rows().len(), 1);
    let job = queue.rows().get(0);
    assert_eq!(
        job.payload.as_deref(),
        Some("{\"payload_type\":\"AudioArtist\",\"id\":1,\"value\":\"Portishead\"}")
    );
    assert_eq!(job.created_at, 42);
    assert_eq!(job.processing_started_at, None);
    assert_eq!(job.errors, None);
}

#[test]
fn consecutive_external_calls_are_spaced_by_the_interval() {
    let mut catalog = Catalog::new();
    let mut queue = EnrichmentQueue::new();
    let mut limiter = RateLimiter::new();
    let mut entries = Vec::new();
    for i in 0..10 {
        entries.push(flac(
            "/lib",
            &format!("{}.flac", i),
            vec![tag("artist", &format!("Artist {}", i))],
        ));
    }
    assert_eq!(scan_entries(&mut catalog, &mut queue, &entries, 100, 1), Ok(10));
    assert_eq!(queue.rows().len(), 10);
    let mut now: u64 = 1_000 * SECOND + 123_456_789;
    let mut calls: Vec<u64> = Vec::new();
    let mut steps = 0;
    while calls.len() < 10 {
        steps += 1;
        assert!(steps < 100);
        match process_queue(&mut limiter, &mut catalog, &mut queue, now, now as i64).unwrap() {
            Action::Sleep(nanos) => {
                assert!(nanos >= 1 && nanos <= MINIMUM_DELAY);
                now += nanos;
            }
            Action::Search(lookup) => {
                calls.push(now);
                let answer = SearchOutcome::Answered(vec![candidate(&lookup.name, None)]);
                let stored = store_candidate(&mut catalog, &mut queue, &lookup, &answer, 5);
                assert!(matches!(stored, Ok(Some(_))));
            }
            Action::Settled { .. } => {}
            Action::Unreadable { .. } => panic!("every job here is readable"),
        }
    }
    assert_eq!(calls[0], 1_000 * SECOND + 123_456_789);
    for pair in calls.windows(2) {
        assert!(pair[1] - pair[0] >= 2 * SECOND);
        assert_eq!(pair[1] - pair[0], MINIMUM_DELAY);
    }
    assert_eq!(queue.rows().len(), 0);
    assert_eq!(catalog.artists.len(), 10);
    assert_eq!(
        process_queue_action(&mut limiter, &mut catalog, &mut queue, now),
        "sleep 2000000000"
    );
}

fn process_queue_action(
    limiter: &mut RateLimiter,
    catalog: &mut Catalog,
    queue: &mut EnrichmentQueue,
    now: u64,
) -> String {
    match process_queue(limiter, catalog, queue, now, (now / SECOND) as i64) {
        Ok(Action::Sleep(nanos)) => format!("sleep {}", nanos),
        Ok(Action::Search(lookup)) => format!("search {}", lookup.query),
        Ok(Action::Settled { job, artist_id }) => format!("settled {} {}", job, artist_id),
        Ok(Action::Unreadable { job }) => format!("unreadable {}", job),
        Err(e) => format!("error {:?}", e),
    }
}

#[test]
fn a_step_before_the_interval_sleeps_the_rest_of_it() {
    let mut catalog = Catalog::new();
    let mut queue = EnrichmentQueue::new();
    let mut limiter = RateLimiter::new();
    limiter.record(100 * SECOND);
    queue.enqueue("{\"payload_type\":\"AudioArtist\",\"id\":1,\"value\":\"X\"}", 1).unwrap();
    let mut step = |now: u64| process_queue_action(&mut limiter, &mut catalog, &mut queue, now);
    assert_eq!(step(100 * SECOND), "sleep 2000000000");
    assert_eq!(step(101 * SECOND), "sleep 1000000000");
    assert_eq!(step(101 * SECOND + 999_999_999), "sleep 1");
    assert_eq!(step(100 * SECOND + 1), "sleep 1999999999");
    assert_eq!(step(99 * SECOND), "sleep 2000000000");
    assert_eq!(step(102 * SECOND), "search X");
    assert_eq!(step(103 * SECOND), "sleep 1000000000");
    assert_eq!(step(103 * SECOND + 999_999_999), "sleep 1");
    assert_eq!(step(104 * SECOND), "sleep 2000000000");
    assert_eq!(limiter.last_request(), 102 * SECOND);
    assert_eq!(queue.rows().get(0).processing_started_at, Some(102));
}

#[test]
fn a_known_artist_is_resolved_without_an_external_call() {
    let mut catalog = Catalog::new();
    let mut queue = EnrichmentQueue::new();
    let mut limiter = RateLimiter::new();
    let entries = vec![flac("/lib", "a.flac", vec![tag("artist", "Radiohead")])];
    let scan = scan_media_files(&mut catalog, &mut queue, &entries, 10, 1);
    assert_eq!(scan, Ok(ScanReport { handled: 1, directories: 1 }));
    assert_eq!(queue.rows().len(), 1);
    let radiohead = known_artist(&mut catalog, "Radiohead");
    match process_queue(&mut limiter, &mut catalog, &mut queue, 50 * SECOND, 9).unwrap() {
        Action::Settled { job, artist_id } => {
            assert_eq!(job, 1);
            assert_eq!(artist_id, radiohead);
        }
        _ => panic!("the artist is known: no call is due"),
    }
    assert_eq!(limiter.last_request(), 0);
    assert_eq!(queue.rows().len(), 0);
    assert_eq!(catalog.artists.len(), 1);
    assert_eq!(catalog.audio_artists.len(), 1);
    assert_eq!(catalog.audio_artists.get(0).audio_id, 1);
    assert_eq!(catalog.audio_artists.get(0).artist_id, radiohead);
    assert_eq!(catalog.artist_directories.len(), 1);
    assert_eq!(catalog.artist_directories.get(0).artist_id, radiohead);
    assert_eq!(catalog.artist_directories.get(0).directory_id, 1);
    assert_eq!(catalog.artist_directories.get(0).created, 9);
}

#[test]
fn end_to_end_scan_and_resolution() {
    let mut catalog = Catalog::new();
    let mut queue = EnrichmentQueue::new();
    let mut limiter = RateLimiter::new();
    let entries = vec![flac("/lib", "song.flac", vec![tag("artist", "New Artist")])];
    let scan = scan_media_files(&mut catalog, &mut queue, &entries, 25_000, 10);
    assert_eq!(scan, Ok(ScanReport { handled: 1, directories: 1 }));
    assert_eq!(catalog.audio.rows().len(), 1);
    assert_eq!(catalog.audio_tags.len(), 1);
    assert_eq!(catalog.audio_tags.get(0).name, "artist");
    assert_eq!(catalog.audio_tags.get(0).value, "New Artist");
    assert_eq!(queue.rows().len(), 1);
    assert_eq!(catalog.artists.len(), 0);

    let lookup = match process_queue(&mut limiter, &mut catalog, &mut queue, 20 * SECOND, 20).unwrap() {
        Action::Search(lookup) => lookup,
        _ => panic!("the artist is unknown: a search is due"),
    };
    assert_eq!(lookup.job, 1);
    assert_eq!(lookup.audio_id, 1);
    assert_eq!(lookup.name, "New Artist");
    assert_eq!(lookup.query, "New\\ Artist");
    assert_eq!(limiter.last_request(), 20 * SECOND);
    assert_eq!(queue.rows().len(), 1);
    assert_eq!(queue.rows().get(0).processing_started_at, Some(20));

    let answer = SearchOutcome::Answered(vec![
        candidate("New Artist", Some("Iceland")),
        candidate("Newer Artist", Some("Norway")),
    ]);
    let stored = store_candidate(&mut catalog, &mut queue, &lookup, &answer, 30);
    assert_eq!(stored, Ok(Some(1)));
    assert_eq!(catalog.artists.len(), 1);
    let artist = catalog.artists.get(0);
    assert_eq!(artist.name, "New Artist");
    assert_eq!(artist.musicbrainz_name, "New Artist");
    assert_eq!(artist.musicbrainz_id, "a74b1b7f-71a5-4011-9441-d0b5e4122711");
    assert_eq!(artist.sort_name, "New Artist, The");
    assert_eq!(artist.disambiguation_comment, "band");
    assert_eq!(artist.artist_area_id, Some(1));
    assert_eq!(artist.artist_type, Some(RiaArtistType::Group));
    assert_eq!(artist.gender, Some(RiaGender::Other));
    assert_eq!(catalog.artist_areas.len(), 1);
    assert_eq!(catalog.artist_areas.get(0).name, "Iceland");
    assert_eq!(catalog.artist_areas.get(0).area_type, "");
    assert_eq!(catalog.audio_artists.len(), 1);
    assert_eq!(catalog.audio_artists.get(0).audio_id, 1);
    assert_eq!(catalog.audio_artists.get(0).artist_id, 1);
    assert_eq!(catalog.artist_directories.len(), 1);
    assert_eq!(catalog.artist_directories.get(0).created, 30);
    assert_eq!(queue.rows().len(), 0);
}

#[test]
fn areas_are_shared_by_name() {
    let mut catalog = Catalog::new();
    let mut queue = EnrichmentQueue::new();
    let first = Lookup { job: 1, audio_id: 1, name: "A".to_string(), query: "A".to_string() };
    let second = Lookup { job: 2, audio_id: 2, name: "B".to_string(), query: "B".to_string() };
    let third = Lookup { job: 3, audio_id: 3, name: "C".to_string(), query: "C".to_string() };
    let iceland = SearchOutcome::Answered(vec![candidate("A", Some("Iceland"))]);
    let again = SearchOutcome::Answered(vec![candidate("B", Some("Iceland"))]);
    let nowhere = SearchOutcome::Answered(vec![candidate("C", None)]);
    assert_eq!(store_candidate(&mut catalog, &mut queue, &first, &iceland, 1), Ok(Some(1)));
    assert_eq!(store_candidate(&mut catalog, &mut queue, &second, &again, 1), Ok(Some(2)));
    assert_eq!(store_candidate(&mut catalog, &mut queue, &third, &nowhere, 1), Ok(Some(3)));
    assert_eq!(catalog.artist_areas.len(), 1);
    assert_eq!(catalog.artists.get(0).artist_area_id, Some(1));
    assert_eq!(catalog.artists.get(1).artist_area_id, Some(1));
    assert_eq!(catalog.artists.get(2).artist_area_id, None);
}

#[test]
fn an_empty_answer_stores_the_name_alone() {
    let mut catalog = Catalog::new();
    let mut queue = EnrichmentQueue::new();
    queue.enqueue("anything", 1).unwrap();
    let lookup = Lookup {
        job: 1,
        audio_id: 4,
        name: "No One".to_string(),
        query: "No\\ One".to_string(),
    };
    let stored =
        store_candidate(&mut catalog, &mut queue, &lookup, &SearchOutcome::Answered(vec![]), 1);
    assert_eq!(stored, Ok(Some(1)));
    let artist = catalog.artists.get(0);
    assert_eq!(artist.name, "No One");
    assert_eq!(artist.musicbrainz_name, "");
    assert_eq!(artist.musicbrainz_id, "");
    assert_eq!(artist.artist_area_id, None);
    assert_eq!(artist.artist_type, None);
    assert_eq!(artist.gender, None);
    assert_eq!(catalog.audio_artists.get(0).audio_id, 4);
    assert_eq!(queue.rows().len(), 0);
    assert_eq!(load_artist_by_name(&catalog, "No One"), Some(1));
    assert_eq!(load_artist_by_name(&catalog, "No\\ One"), None);
}

#[test]
fn a_stored_artist_is_found_by_the_next_job() {
    let mut catalog = Catalog::new();
    let mut queue = EnrichmentQueue::new();
    let mut limiter = RateLimiter::new();
    let mut entries = Vec::new();
    for i in 0..10 {
        entries.push(flac("/lib", &format!("{}.flac", i), vec![tag("artist", "New Artist")]));
    }
    assert_eq!(load_artist_by_name(&catalog, "New Artist"), None);
    assert_eq!(scan_entries(&mut catalog, &mut queue, &entries, 100, 1), Ok(10));
    assert_eq!(queue.rows().len(), 10);

    let first = match process_queue(&mut limiter, &mut catalog, &mut queue, 5 * SECOND, 5) {
        Ok(Action::Search(lookup)) => lookup,
        _ => panic!("the artist is unknown: a search is due"),
    };
    assert_eq!(first.name, "New Artist");
    assert_eq!(first.query, "New\\ Artist");
    let answer = SearchOutcome::Answered(vec![candidate("New Artist", None)]);
    assert_eq!(store_candidate(&mut catalog, &mut queue, &first, &answer, 6), Ok(Some(1)));
    assert_eq!(catalog.artists.get(0).name, "New Artist");
    assert_eq!(load_artist_by_name(&catalog, "New Artist"), Some(1));
    assert_eq!(load_artist_by_name(&catalog, "New Artist"), Some(1));
    assert_eq!(catalog.artists.len(), 1);
    assert_eq!(load_artist_by_name(&catalog, "New\\ Artist"), None);

    // The other nine jobs are settled from the catalog, at once and without
    // a call, though the limiter would allow none so soon.
    for job in 2..=10 {
        match process_queue(&mut limiter, &mut catalog, &mut queue, 7 * SECOND, 7) {
            Ok(Action::Settled { job: done, artist_id }) => {
                assert_eq!(done, job);
                assert_eq!(artist_id, 1);
            }
            _ => panic!("the artist is stored: no call is due"),
        }
    }
    assert_eq!(limiter.last_request(), 5 * SECOND);
    assert_eq!(queue.rows().len(), 0);
    assert_eq!(catalog.artists.len(), 1);
    assert_eq!(catalog.audio_artists.len(), 10);

    // A file scanned later is linked during the scan.
    let later = vec![flac("/lib", "later.flac", vec![tag("artist", "New Artist")])];
    assert_eq!(scan_entries(&mut catalog, &mut queue, &later, 100, 8), Ok(1));
    assert_eq!(queue.rows().len(), 0);
    assert_eq!(catalog.audio_artists.len(), 11);
    assert_eq!(catalog.artists.len(), 1);
}

#[test]
fn a_failed_call_leaves_the_job_claimed() {
    let mut catalog = Catalog::new();
    let mut queue = EnrichmentQueue::new();
    let mut limiter = RateLimiter::new();
    queue.enqueue("{\"payload_type\":\"AudioArtist\",\"id\":3,\"value\":\"Bjork\"}", 1).unwrap();
    let lookup = match process_queue(&mut limiter, &mut catalog, &mut queue, 10 * SECOND, 10).unwrap() {
        Action::Search(lookup) => lookup,
        _ => panic!("a search is due"),
    };
    let stored = store_candidate(&mut catalog, &mut queue, &lookup, &SearchOutcome::Failed, 11);
    assert_eq!(stored, Ok(None));
    assert_eq!(catalog.artists.len(), 0);
    assert_eq!(queue.rows().len(), 1);
    assert_eq!(queue.rows().get(0).processing_started_at, Some(10));
    assert_eq!(limiter.last_request(), 10 * SECOND);
    assert_eq!(
        process_queue_action(&mut limiter, &mut catalog, &mut queue, 12 * SECOND),
        "sleep 2000000000"
    );
}

#[test]
fn the_searched_name_is_escaped() {
    let mut catalog = Catalog::new();
    let mut queue = EnrichmentQueue::new();
    let mut limiter = RateLimiter::new();
    let name = "a\u{7}b\u{8}c\td\ne\u{b}f\u{c}g\rh i\\j\u{e9}\"k";
    let entries = vec![flac("/lib", "a.flac", vec![tag("artist", name)])];
    assert_eq!(scan_entries(&mut catalog, &mut queue, &entries, 10, 1), Ok(1));
    match process_queue(&mut limiter, &mut catalog, &mut queue, 10 * SECOND, 10).unwrap() {
        Action::Search(lookup) => {
            assert_eq!(lookup.name, name);
            assert_eq!(
                lookup.query,
                "a\\ab\\bc\\td\\ne\\vf\\fg\\rh\\ i\\\\j\u{e9}\"k"
            );
        }
        _ => panic!("a search is due"),
    }
}

#[test]
fn an_unreadable_job_stays_claimed() {
    let mut catalog = Catalog::new();
    let mut queue = EnrichmentQueue::new();
    let mut limiter = RateLimiter::new();
    queue.enqueue("not a job", 1).unwrap();
    assert_eq!(
        process_queue_action(&mut limiter, &mut catalog, &mut queue, 10 * SECOND),
        "unreadable 1"
    );
    assert_eq!(queue.rows().get(0).processing_started_at, Some(10));
    assert_eq!(limiter.last_request(), 0);
}

#[test]
fn a_scan_stops_where_the_store_is_full() {
    let mut catalog = Catalog::new();
    let mut queue = EnrichmentQueue::new();
    let placed = catalog.audio_tags.load(ria::entities::audio_tag::Model {
        audio_tag_id: i32::MAX - 1,
        audio_id: 1,
        name: "title".to_string(),
        value: "t".to_string(),
    });
    assert_eq!(placed, Ok(()));
    let entries = vec![
        flac("/lib", "a.flac", vec![tag("title", "A")]),
        flac("/lib", "b.flac", vec![tag("title", "B"), tag("comment", "c")]),
        flac("/lib", "c.flac", vec![]),
    ];
    let stopped = scan_media_files(&mut catalog, &mut queue, &entries, 10, 1);
    assert_eq!(stopped, Err(ScanError::Recording(CatalogError::Full)));
    assert_eq!(catalog.audio.rows().len(), 1);
    assert_eq!(catalog.audio_tags.len(), 2);
    assert_eq!(catalog.audio_tags.get(1).audio_tag_id, i32::MAX);
    assert_eq!(catalog.directories.len(), 0);
    assert_eq!(scan_entries(&mut catalog, &mut queue, &entries, 1, 1), Ok(1));
    assert_eq!(scan_entries(&mut catalog, &mut queue, &entries, 2, 1), Err(CatalogError::Full));
}

#[test]
fn a_scan_is_not_grouped_where_the_catalog_is_full() {
    let mut catalog = Catalog::new();
    let mut queue = EnrichmentQueue::new();
    let placed = catalog.directories.load(ria::entities::directory::Model {
        directory_id: i32::MAX,
        created: 0,
        updated: 0,
        name: "old".to_string(),
        path: "/old".to_string(),
    });
    assert_eq!(placed, Ok(()));
    let entries = vec![flac("/lib", "a.flac", vec![])];
    let stopped = scan_media_files(&mut catalog, &mut queue, &entries, 10, 1);
    assert_eq!(stopped, Err(ScanError::Grouping(CatalogError::Full)));
    assert_eq!(catalog.audio.rows().len(), 1);
    assert_eq!(catalog.directories.len(), 1);
    assert_eq!(catalog.audio_directories.len(), 0);
    assert_eq!(
        scan_media_files(&mut catalog, &mut queue, &Vec::new(), 10, 1),
        Err(ScanError::Grouping(CatalogError::Full))
    );
}

#[test]
fn an_answer_is_refused_where_the_catalog_is_full() {
    let mut catalog = Catalog::new();
    let mut queue = EnrichmentQueue::new();
    queue.enqueue("job", 1).unwrap();
    let mut last = known_artist(&mut catalog, "Last");
    assert_eq!(last, 1);
    last = i32::MAX;
    let placed = catalog.artists.load(artist::Model {
        artist_id: last,
        name: "Last".to_string(),
        musicbrainz_name: String::new(),
        musicbrainz_id: String::new(),
        sort_name: String::new(),
        disambiguation_comment: String::new(),
        artist_area_id: None,
        artist_type: None,
        gender: None,
    });
    assert_eq!(placed, Ok(()));
    let lookup = Lookup { job: 1, audio_id: 1, name: "X".to_string(), query: "X".to_string() };
    let answer = SearchOutcome::Answered(vec![candidate("X", Some("Iceland"))]);
    let refused = store_candidate(&mut catalog, &mut queue, &lookup, &answer, 1);
    assert_eq!(refused, Err(CatalogError::Full));
    assert_eq!(catalog.artists.len(), 2);
    assert_eq!(catalog.artist_areas.len(), 0);
    assert_eq!(queue.rows().len(), 1);
}
