use ria::entities::musicbrainz_queue::Model;
use ria::limiter::{RateLimiter, MINIMUM_DELAY};
use ria::payload::{PayloadType, QueuePayload};
use ria::queue::{Change, EnrichmentQueue, Stored};
use ria::table::CatalogError;

fn row(id: i32, created_at: i64, payload: Option<&str>) -> Model {
    Model {
        musicbrainz_queue_id: id,
        created_at,
        processing_started_at: None,
        errors: None,
        payload: payload.map(|p| p.to_string()),
    }
}

#[test]
fn an_identical_payload_is_queued_once() {
    let mut queue = EnrichmentQueue::new();
    assert_eq!(queue.enqueue("{\"id\":1}", 10), Ok(Some(1)));
    assert_eq!(queue.enqueue("{\"id\":1}", 20), Ok(None));
    assert_eq!(queue.rows().len(), 1);
    assert_eq!(queue.rows().get(0).created_at, 10);
    assert!(queue.contains("{\"id\":1}"));
    assert!(!queue.contains("{\"id\":2}"));
}

#[test]
fn payloads_that_differ_in_casing_are_both_queued() {
    let mut queue = EnrichmentQueue::new();
    let lower = QueuePayload {
        payload_type: PayloadType::AudioArtist,
        id: 1,
        value: "radiohead".to_string(),
    };
    let upper = QueuePayload {
        payload_type: PayloadType::AudioArtist,
        id: 1,
        value: "Radiohead".to_string(),
    };
    assert_eq!(queue.add_to_queue(&lower, 1), Ok(Some(1)));
    assert_eq!(queue.add_to_queue(&upper, 1), Ok(Some(2)));
    assert_eq!(queue.add_to_queue(&lower, 2), Ok(None));
    assert_eq!(queue.enqueue(&upper.to_json(), 3), Ok(None));
    assert_eq!(queue.rows().len(), 2);
    assert_eq!(
        queue.rows().get(0).payload.as_deref(),
        Some("{\"payload_type\":\"AudioArtist\",\"id\":1,\"value\":\"radiohead\"}")
    );
}

#[test]
fn jobs_are_claimed_oldest_first() {
    let mut queue = EnrichmentQueue::new();
    assert_eq!(queue.load(row(1, 2, Some("J2"))), Ok(()));
    assert_eq!(queue.load(row(2, 1, Some("J1"))), Ok(()));
    assert_eq!(queue.load(row(3, 2, Some("J3"))), Ok(()));
    let first = queue.claim(100).unwrap();
    assert_eq!(first.payload.as_deref(), Some("J1"));
    assert_eq!(first.created_at, 1);
    assert_eq!(first.processing_started_at, Some(100));
    assert_eq!(first.musicbrainz_queue_id, 2);
    assert_eq!(queue.rows().get(1).processing_started_at, Some(100));
    let second = queue.claim(101).unwrap();
    assert_eq!(second.payload.as_deref(), Some("J2"));
    let third = queue.claim(102).unwrap();
    assert_eq!(third.payload.as_deref(), Some("J3"));
    assert!(queue.claim(103).is_none());
    assert_eq!(queue.rows().len(), 3);
}

#[test]
fn a_claim_on_an_empty_queue_finds_nothing() {
    let mut queue = EnrichmentQueue::new();
    assert!(queue.claim(1).is_none());
    assert_eq!(queue.rows().len(), 0);
}

#[test]
fn completing_a_job_deletes_its_row() {
    let mut queue = EnrichmentQueue::new();
    queue.enqueue("a", 1).unwrap();
    queue.enqueue("b", 2).unwrap();
    queue.enqueue("c", 3).unwrap();
    assert!(queue.complete(2));
    assert!(!queue.complete(2));
    assert!(!queue.complete(9));
    assert_eq!(queue.rows().len(), 2);
    assert_eq!(queue.rows().get(0).musicbrainz_queue_id, 1);
    assert_eq!(queue.rows().get(1).musicbrainz_queue_id, 3);
    assert_eq!(queue.enqueue("d", 4), Ok(Some(4)));
    assert!(queue.complete(4));
    assert_eq!(queue.enqueue("e", 5), Ok(Some(4)));
}

#[test]
fn loading_refuses_repeated_payloads_and_ids_out_of_order() {
    let mut queue = EnrichmentQueue::new();
    assert_eq!(queue.load(row(5, 1, Some("a"))), Ok(()));
    assert_eq!(queue.load(row(6, 1, Some("a"))), Err(CatalogError::DuplicatePayload));
    assert_eq!(queue.load(row(5, 1, Some("b"))), Err(CatalogError::OutOfOrder));
    assert_eq!(queue.load(row(4, 1, None)), Err(CatalogError::OutOfOrder));
    assert_eq!(queue.load(row(7, 1, None)), Ok(()));
    assert_eq!(queue.load(row(8, 1, None)), Ok(()));
    assert_eq!(queue.rows().len(), 3);
    let mut empty = EnrichmentQueue::new();
    assert_eq!(empty.load(row(0, 1, None)), Err(CatalogError::OutOfOrder));
}

#[test]
fn the_queue_is_full_at_the_last_id() {
    let mut queue = EnrichmentQueue::new();
    assert_eq!(queue.load(row(i32::MAX, 1, Some("last"))), Ok(()));
    assert!(queue.has_room(0));
    assert!(!queue.has_room(1));
    assert_eq!(queue.enqueue("one more", 2), Err(CatalogError::Full));
    assert_eq!(queue.enqueue("last", 2), Ok(None));
    assert_eq!(queue.rows().len(), 1);
}

#[test]
fn the_limiter_allows_a_call_after_the_interval() {
    let mut limiter = RateLimiter::new();
    let second: u64 = 1_000_000_000;
    assert_eq!(MINIMUM_DELAY, 2 * second);
    assert_eq!(limiter.last_request(), 0);
    assert!(!limiter.allow(0));
    assert!(!limiter.allow(second));
    assert!(!limiter.allow(2 * second - 1));
    assert!(limiter.allow(2 * second));
    limiter.record(10 * second + 5);
    assert!(!limiter.allow(9 * second));
    assert!(!limiter.allow(10 * second + 5));
    assert!(!limiter.allow(11 * second + 999_999_999));
    assert!(!limiter.allow(12 * second + 4));
    assert!(limiter.allow(12 * second + 5));
    assert!(limiter.allow(u64::MAX));
    assert_eq!(limiter.wait(9 * second), 2 * second);
    assert_eq!(limiter.wait(10 * second + 5), 2 * second);
    assert_eq!(limiter.wait(11 * second + 5), second);
    assert_eq!(limiter.wait(12 * second + 4), 1);
    assert_eq!(limiter.wait(12 * second + 5), 0);
    assert_eq!(limiter.wait(500 * second), 0);
}

#[test]
fn the_store_is_brought_up_to_the_queue() {
    let mut queue = EnrichmentQueue::new();
    assert_eq!(queue.changes(&Vec::new()), Vec::<Change>::new());
    assert_eq!(queue.stored(), Vec::<Stored>::new());
    queue.enqueue("a", 1).unwrap();
    queue.enqueue("b", 2).unwrap();
    queue.enqueue("c", 3).unwrap();
    assert_eq!(
        queue.changes(&Vec::new()),
        vec![Change::Insert(0), Change::Insert(1), Change::Insert(2)]
    );
    let held = queue.stored();
    assert_eq!(
        held,
        vec![
            Stored { id: 1, started: None },
            Stored { id: 2, started: None },
            Stored { id: 3, started: None },
        ]
    );
    assert_eq!(queue.changes(&held), Vec::<Change>::new());

    // One job is claimed, one completed, one added.
    assert_eq!(queue.claim(50).unwrap().musicbrainz_queue_id, 1);
    assert!(queue.complete(2));
    queue.enqueue("d", 4).unwrap();
    assert_eq!(
        queue.changes(&held),
        vec![Change::Restamp(0), Change::Insert(2), Change::Delete(2)]
    );
    let held = queue.stored();
    assert_eq!(
        held,
        vec![
            Stored { id: 1, started: Some(50) },
            Stored { id: 3, started: None },
            Stored { id: 4, started: None },
        ]
    );
    assert_eq!(queue.changes(&held), Vec::<Change>::new());

    // A claimed job that is completed is deleted, not stamped.
    assert!(queue.complete(1));
    assert_eq!(queue.changes(&held), vec![Change::Delete(1)]);
    let unclaimed = vec![Stored { id: 3, started: Some(7) }, Stored { id: 9, started: None }];
    assert_eq!(
        queue.changes(&unclaimed),
        vec![Change::Restamp(0), Change::Insert(1), Change::Delete(9)]
    );
}

#[test]
fn a_written_job_is_read_when_it_is_claimed() {
    let mut queue = EnrichmentQueue::new();
    let job = QueuePayload {
        payload_type: PayloadType::AudioArtist,
        id: -17,
        value: "Sigur R\u{f3}s, \"live\"\n\\".to_string(),
    };
    assert_eq!(queue.add_to_queue(&job, 3), Ok(Some(1)));
    let claimed = queue.claim(4).unwrap();
    let read = QueuePayload::from_json(claimed.payload.as_deref().unwrap()).unwrap();
    assert_eq!(read.id, -17);
    assert_eq!(read.value, job.value);
    assert_eq!(read.payload_type, PayloadType::AudioArtist);
}
