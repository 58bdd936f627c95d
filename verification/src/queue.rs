//! The enrichment queue: deferred jobs, taken oldest first.

use crate::entities::musicbrainz_queue::{Model, Row};
use crate::payload::{parsed_payload, payload_text, QueuePayload};
use crate::table::{ascending, next_key, CatalogError, Record, Table};
use crate::text::copy_opt;
use vstd::prelude::*;

verus! {

/// Whether some row of `rows` carries exactly this payload.
pub open spec fn holds_payload(rows: Seq<Row>, payload: Seq<char>) -> bool {
    exists|i: int| 0 <= i < rows.len() && (#[trigger] rows[i]).payload == Some(payload)
}

/// Whether no payload is carried by two rows of `rows`.
pub open spec fn distinct_payloads(rows: Seq<Row>) -> bool {
    forall|i: int, j: int|
        0 <= i < j < rows.len() && (#[trigger] rows[i]).payload is Some ==> rows[i].payload != (
        #[trigger] rows[j]).payload
}

/// Whether a job waits to be claimed.
pub open spec fn pending(row: Row) -> bool {
    row.processing_started_at is None
}

/// Whether the row at `i` is taken no later than the row at `j`: it was
/// created earlier, or at the same time and inserted no later.
pub open spec fn precedes(rows: Seq<Row>, i: int, j: int) -> bool {
    rows[i].created_at < rows[j].created_at || (rows[i].created_at == rows[j].created_at && i
        <= j)
}

/// Whether the row at `i` is the pending job that precedes every pending job
/// among the first `n` rows.
pub open spec fn leads(rows: Seq<Row>, i: int, n: int) -> bool {
    &&& 0 <= i < n <= rows.len()
    &&& pending(rows[i])
    &&& forall|j: int| 0 <= j < n && pending(#[trigger] rows[j]) ==> precedes(rows, i, j)
}

/// The position of the job that the next claim takes: the pending job with
/// the smallest `created_at`, the one inserted first among equals.
pub open spec fn next_pending(rows: Seq<Row>) -> Option<int> {
    if exists|i: int| leads(rows, i, rows.len() as int) {
        Some(choose|i: int| leads(rows, i, rows.len() as int))
    } else {
        None
    }
}

/// Whether `row` carries a payload that a row of `rows` carries already.
pub open spec fn repeats(rows: Seq<Row>, row: Row) -> bool {
    row.payload matches Some(text) && holds_payload(rows, text)
}

/// A row as a claim at time `now` leaves it.
pub open spec fn claimed(row: Row, now: i64) -> Row {
    Row { processing_started_at: Some(now), ..row }
}

/// The row that `enqueue` inserts.
pub open spec fn fresh(id: int, payload: Seq<char>, now: i64) -> Row {
    Row {
        musicbrainz_queue_id: id,
        created_at: now,
        processing_started_at: None,
        errors: None,
        payload: Some(payload),
    }
}

/// The queue after a job for `payload` was asked for at `now`: one more row,
/// unless a row carries exactly this payload already.
pub open spec fn enqueued(rows: Seq<Row>, payload: Seq<char>, now: i64) -> Seq<Row> {
    if holds_payload(rows, payload) {
        rows
    } else {
        rows.push(fresh(next_key::<Model>(rows), payload, now))
    }
}

/// At most one row leads.
pub proof fn lemma_leader_unique(rows: Seq<Row>, a: int, b: int)
    requires
        leads(rows, a, rows.len() as int),
        leads(rows, b, rows.len() as int),
    ensures
        a == b,
{
}

/// The queue of enrichment jobs. Ids ascend, and no payload is held twice.
pub struct EnrichmentQueue {
    rows: Table<Model>,
}

impl View for EnrichmentQueue {
    type V = Seq<Row>;

    closed spec fn view(&self) -> Seq<Row> {
        self.rows@
    }
}

impl EnrichmentQueue {
    /// The queue's invariant.
    pub open spec fn wf(&self) -> bool {
        &&& ascending::<Model>(self@)
        &&& distinct_payloads(self@)
    }

    /// An empty queue.
    pub fn new() -> (queue: Self)
        ensures
            queue@ == Seq::<Row>::empty(),
            queue.wf(),
    {
        EnrichmentQueue { rows: Table::new() }
    }

    /// The rows, for reading.
    pub fn rows(&self) -> (rows: &Table<Model>)
        ensures
            rows@ == self@,
    {
        &self.rows
    }

    /// Whether `count` more jobs can be queued before the id space is used
    /// up.
    pub fn has_room(&self, count: usize) -> (room: bool)
        requires
            self.wf(),
        ensures
            room == (next_key::<Model>(self@) + count <= i32::MAX + 1),
    {
        self.rows.has_room(count)
    }

    /// Whether some row carries exactly this payload.
    pub fn contains(&self, payload: &str) -> (found: bool)
        ensures
            found == holds_payload(self@, payload@),
    {
        let n = self.rows.len();
        let mut i: usize = 0;
        while i < n
            invariant
                n == self@.len(),
                i <= n,
                forall|j: int| 0 <= j < i ==> (#[trigger] self@[j]).payload != Some(payload@),
            decreases n - i,
        {
            let row = self.rows.get(i);
            match &row.payload {
                Some(text) => {
                    if *text.as_str() == *payload {
                        return true;
                    }
                },
                None => {},
            }
            i += 1;
        }
        false
    }

    /// Appends `row` under its own id. Refused when its payload is already
    /// queued, or when its id does not lie above the ids in the queue.
    pub fn load(&mut self, row: Model) -> (outcome: Result<(), CatalogError>)
        requires
            old(self).wf(),
        ensures
            final(self).wf(),
            match outcome {
                Ok(()) => final(self)@ == old(self)@.push(row@),
                Err(e) => final(self)@ == old(self)@ && e == if repeats(old(self)@, row@) {
                    CatalogError::DuplicatePayload
                } else {
                    CatalogError::OutOfOrder
                },
            },
            outcome is Ok <==> !repeats(old(self)@, row@) && row@.musicbrainz_queue_id
                >= next_key::<Model>(old(self)@),
    {
        let repeated = match &row.payload {
            Some(text) => self.contains(text.as_str()),
            None => false,
        };
        if repeated {
            return Err(CatalogError::DuplicatePayload);
        }
        self.rows.load(row)
    }

    /// Queues a job for `payload`, created at `now`, unless a row with
    /// exactly this payload is in the queue already. Returns the new row's
    /// id, or `None` where nothing was added.
    pub fn enqueue(&mut self, payload: &str, now: i64) -> (outcome: Result<
        Option<i32>,
        CatalogError,
    >)
        requires
            old(self).wf(),
        ensures
            final(self).wf(),
            match outcome {
                Ok(Some(id)) => !holds_payload(old(self)@, payload@) && id == next_key::<Model>(
                    old(self)@,
                ),
                Ok(None) => holds_payload(old(self)@, payload@),
                Err(e) => !holds_payload(old(self)@, payload@) && e == CatalogError::Full
                    && next_key::<Model>(old(self)@) > i32::MAX && final(self)@ == old(self)@,
            },
            outcome is Ok ==> final(self)@ == enqueued(old(self)@, payload@, now),
    {
        if self.contains(payload) {
            return Ok(None);
        }
        let row = Model {
            musicbrainz_queue_id: 0,
            created_at: now,
            processing_started_at: None,
            errors: None,
            payload: Some(payload.to_owned()),
        };
        match self.rows.insert(row) {
            Ok(id) => Ok(Some(id)),
            Err(e) => Err(e),
        }
    }

    /// Queues a job, stored as the text of its payload, unless a row with
    /// exactly this text is in the queue already: two payloads are the same
    /// job only where their texts are equal, letter for letter. Returns the
    /// new row's id, or `None` where nothing was added. The stored text is
    /// read back as this payload when the job is claimed.
    pub fn add_to_queue(&mut self, payload: &QueuePayload, now: i64) -> (outcome: Result<
        Option<i32>,
        CatalogError,
    >)
        requires
            old(self).wf(),
        ensures
            final(self).wf(),
            match outcome {
                Ok(Some(id)) => !holds_payload(old(self)@, payload_text(payload@)) && id
                    == next_key::<Model>(old(self)@),
                Ok(None) => holds_payload(old(self)@, payload_text(payload@)),
                Err(e) => !holds_payload(old(self)@, payload_text(payload@)) && e
                    == CatalogError::Full && next_key::<Model>(old(self)@) > i32::MAX
                    && final(self)@ == old(self)@,
            },
            outcome is Ok ==> final(self)@ == enqueued(old(self)@, payload_text(payload@), now),
            parsed_payload(payload_text(payload@)) == Some(payload@),
    {
        let text = payload.to_json();
        self.enqueue(text.as_str(), now)
    }

    /// Claims the next job: the pending row with the smallest `created_at`
    /// is stamped with `now` and returned. `None`, and no change, when no
    /// row is pending.
    pub fn claim(&mut self, now: i64) -> (job: Option<Model>)
        requires
            old(self).wf(),
        ensures
            final(self).wf(),
            match next_pending(old(self)@) {
                Some(i) => job matches Some(taken) && taken@ == claimed(old(self)@[i], now)
                    && final(self)@ == old(self)@.update(i, claimed(old(self)@[i], now)),
                None => job is None && final(self)@ == old(self)@,
            },
    {
        let n = self.rows.len();
        let mut best: Option<usize> = None;
        let mut i: usize = 0;
        while i < n
            invariant
                n == self@.len(),
                i <= n,
                self@ == old(self)@,
                match best {
                    Some(b) => leads(self@, b as int, i as int),
                    None => forall|j: int| 0 <= j < i ==> !pending(#[trigger] self@[j]),
                },
            decreases n - i,
        {
            let row = self.rows.get(i);
            if row.processing_started_at.is_none() {
                match best {
                    Some(b) => {
                        if row.created_at < self.rows.get(b).created_at {
                            best = Some(i);
                        }
                    },
                    None => {
                        best = Some(i);
                    },
                }
            }
            i += 1;
        }
        match best {
            Some(b) => {
                proof {
                    let at = choose|k: int| leads(self@, k, n as int);
                    lemma_leader_unique(self@, b as int, at);
                }
                let row = self.rows.get(b);
                let stamped = Model {
                    musicbrainz_queue_id: row.musicbrainz_queue_id,
                    created_at: row.created_at,
                    processing_started_at: Some(now),
                    errors: copy_opt(&row.errors),
                    payload: copy_opt(&row.payload),
                };
                let taken = stamped.duplicate();
                self.rows.replace(b, stamped);
                Some(taken)
            },
            None => {
                None
            },
        }
    }

    /// Completes a job: the row with this id is deleted. Returns whether
    /// there was one.
    pub fn complete(&mut self, id: i32) -> (removed: bool)
        requires
            old(self).wf(),
        ensures
            final(self).wf(),
            removed == holds_job(old(self)@, id as int),
            final(self)@ == without_job(old(self)@, id as int),
    {
        match self.rows.position(id) {
            Some(i) => {
                proof {
                    lemma_job_position(self@, id as int, i as int);
                }
                self.rows.remove(i);
                true
            },
            None => false,
        }
    }
}

/// Whether some row of `rows` has this id.
pub open spec fn holds_job(rows: Seq<Row>, id: int) -> bool {
    exists|i: int| 0 <= i < rows.len() && (#[trigger] rows[i]).musicbrainz_queue_id == id
}

/// `rows` without the row of this id.
pub open spec fn without_job(rows: Seq<Row>, id: int) -> Seq<Row> {
    if holds_job(rows, id) {
        rows.remove(
            choose|i: int| 0 <= i < rows.len() && (#[trigger] rows[i]).musicbrainz_queue_id == id,
        )
    } else {
        rows
    }
}

/// In a queue whose ids ascend, a row is found by its id.
pub proof fn lemma_job_position(rows: Seq<Row>, id: int, at: int)
    requires
        ascending::<Model>(rows),
        0 <= at < rows.len(),
        rows[at].musicbrainz_queue_id == id,
    ensures
        holds_job(rows, id),
        without_job(rows, id) == rows.remove(at),
{
    let found = choose|i: int|
        0 <= i < rows.len() && (#[trigger] rows[i]).musicbrainz_queue_id == id;
    assert(found == at);
}

/// Whether exactly one row of `rows` carries this payload.
pub open spec fn carried_once(rows: Seq<Row>, payload: Seq<char>) -> bool {
    exists|i: int|
        0 <= i < rows.len() && (#[trigger] rows[i]).payload == Some(payload) && forall|j: int|
            0 <= j < rows.len() && (#[trigger] rows[j]).payload == Some(payload) ==> j == i
}

/// Queueing keeps payloads distinct.
pub proof fn lemma_enqueued_distinct(rows: Seq<Row>, payload: Seq<char>, now: i64)
    requires
        distinct_payloads(rows),
    ensures
        distinct_payloads(enqueued(rows, payload, now)),
        holds_payload(enqueued(rows, payload, now), payload),
{
    let after = enqueued(rows, payload, now);
    if !holds_payload(rows, payload) {
        assert(after[rows.len() as int].payload == Some(payload));
    }
}

/// Queueing an identical payload twice yields exactly one row for it: the
/// second request changes nothing, and one row carries the payload.
pub proof fn law_enqueue_once(rows: Seq<Row>, payload: Seq<char>, first: i64, second: i64)
    requires
        distinct_payloads(rows),
    ensures
        enqueued(enqueued(rows, payload, first), payload, second) == enqueued(
            rows,
            payload,
            first,
        ),
        carried_once(enqueued(rows, payload, first), payload),
{
    lemma_enqueued_distinct(rows, payload, first);
    let after = enqueued(rows, payload, first);
    let at = choose|i: int| 0 <= i < after.len() && (#[trigger] after[i]).payload == Some(payload);
    assert(after[at].payload == Some(payload));
}

/// Among the first `n` rows, one leads as soon as one is pending.
pub proof fn lemma_leader_exists(rows: Seq<Row>, n: int) -> (at: int)
    requires
        0 <= n <= rows.len(),
        exists|j: int| 0 <= j < n && pending(#[trigger] rows[j]),
    ensures
        leads(rows, at, n),
    decreases n,
{
    if exists|j: int| 0 <= j < n - 1 && pending(#[trigger] rows[j]) {
        let before = lemma_leader_exists(rows, n - 1);
        if pending(rows[n - 1]) && rows[n - 1].created_at < rows[before].created_at {
            assert(leads(rows, n - 1, n));
            n - 1
        } else {
            before
        }
    } else {
        n - 1
    }
}

/// A claim finds a job exactly when one is pending.
pub proof fn law_claim_finds_pending(rows: Seq<Row>)
    ensures
        next_pending(rows) is Some <==> exists|j: int|
            0 <= j < rows.len() && pending(#[trigger] rows[j]),
        next_pending(rows) matches Some(i) ==> leads(rows, i, rows.len() as int),
{
    if exists|j: int| 0 <= j < rows.len() && pending(#[trigger] rows[j]) {
        let at = lemma_leader_exists(rows, rows.len() as int);
    }
}

/// Jobs are claimed in ascending order of `created_at`: the job that a
/// claim takes was created no later than any other pending job.
pub proof fn law_claim_takes_oldest(rows: Seq<Row>, other: int)
    requires
        next_pending(rows) is Some,
        0 <= other < rows.len(),
        pending(rows[other]),
    ensures
        rows[next_pending(rows)->0].created_at <= rows[other].created_at,
{
    law_claim_finds_pending(rows);
}

/// Of two claims in a row, the first takes a job that was created no later
/// than the job that the second takes.
pub proof fn law_claims_ascend(rows: Seq<Row>, now: i64)
    requires
        next_pending(rows) is Some,
        next_pending(rows.update(next_pending(rows)->0, claimed(rows[next_pending(rows)->0], now)))
            is Some,
    ensures
        ({
            let first = next_pending(rows)->0;
            let left = rows.update(first, claimed(rows[first], now));
            rows[first].created_at <= left[next_pending(left)->0].created_at
        }),
{
    law_claim_finds_pending(rows);
    let first = next_pending(rows)->0;
    let left = rows.update(first, claimed(rows[first], now));
    law_claim_finds_pending(left);
    let second = next_pending(left)->0;
}

/// The queue after one claim after the other, made at these times.
pub open spec fn after_claims(rows: Seq<Row>, times: Seq<i64>) -> Seq<Row>
    decreases times.len(),
{
    if times.len() == 0 {
        rows
    } else {
        let before = after_claims(rows, times.drop_last());
        match next_pending(before) {
            Some(i) => before.update(i, claimed(before[i], times.last())),
            None => before,
        }
    }
}

/// Claims change nothing of a row but its stamp, and make no row pending.
pub proof fn lemma_claims_keep(rows: Seq<Row>, times: Seq<i64>)
    ensures
        after_claims(rows, times).len() == rows.len(),
        forall|j: int|
            0 <= j < rows.len() ==> (#[trigger] after_claims(rows, times)[j]).created_at
                == rows[j].created_at && (pending(after_claims(rows, times)[j]) ==> pending(
                rows[j],
            )),
    decreases times.len(),
{
    if times.len() > 0 {
        lemma_claims_keep(rows, times.drop_last());
        law_claim_finds_pending(after_claims(rows, times.drop_last()));
    }
}

/// A job that is pending after some claims was pending after the first of
/// them.
pub proof fn lemma_pending_before(rows: Seq<Row>, times: Seq<i64>, a: int, b: int, j: int)
    requires
        0 <= a <= b <= times.len(),
        0 <= j < rows.len(),
        pending(after_claims(rows, times.take(b))[j]),
    ensures
        pending(after_claims(rows, times.take(a))[j]),
    decreases b - a,
{
    if a < b {
        let before = after_claims(rows, times.take(b - 1));
        assert(times.take(b).drop_last() =~= times.take(b - 1));
        lemma_claims_keep(rows, times.take(b - 1));
        law_claim_finds_pending(before);
        lemma_pending_before(rows, times, a, b - 1, j);
    }
}

/// Jobs are claimed in ascending order of `created_at`, however many claims
/// are made: of `times.len()` claims in a row, an earlier one takes a job
/// that was created no later than the job that a later one takes.
pub proof fn law_claims_take_jobs_in_order(rows: Seq<Row>, times: Seq<i64>, a: int, b: int)
    requires
        0 <= a <= b <= times.len(),
        next_pending(after_claims(rows, times.take(a))) is Some,
        next_pending(after_claims(rows, times.take(b))) is Some,
    ensures
        ({
            let earlier = next_pending(after_claims(rows, times.take(a)))->0;
            let later = next_pending(after_claims(rows, times.take(b)))->0;
            &&& 0 <= earlier < rows.len()
            &&& 0 <= later < rows.len()
            &&& rows[earlier].created_at <= rows[later].created_at
        }),
{
    let at_a = after_claims(rows, times.take(a));
    let at_b = after_claims(rows, times.take(b));
    lemma_claims_keep(rows, times.take(a));
    lemma_claims_keep(rows, times.take(b));
    law_claim_finds_pending(at_a);
    law_claim_finds_pending(at_b);
    let later = next_pending(at_b)->0;
    lemma_pending_before(rows, times, a, b, later);
    law_claim_takes_oldest(at_a, later);
}

/// What a store holds of a job: its id, and when it was claimed.
#[derive(Clone, Copy, Debug, PartialEq, Eq, Structural)]
pub struct Stored {
    pub id: i32,
    pub started: Option<i64>,
}

/// One change that brings a store up to the queue.
#[derive(Clone, Copy, Debug, PartialEq, Eq, Structural)]
pub enum Change {
    /// Write the row at this position of the queue: the store lacks it.
    Insert(usize),
    /// Stamp the stored row with the claim of the row at this position.
    Restamp(usize),
    /// Delete the stored row of this id: its job is completed.
    Delete(i32),
}

/// What the store holds under an id: its first entry of that id.
pub open spec fn stored_job(stored: Seq<Stored>, id: int) -> Option<Stored>
    decreases stored.len(),
{
    if stored.len() == 0 {
        None
    } else if stored.first().id == id {
        Some(stored.first())
    } else {
        stored_job(stored.drop_first(), id)
    }
}

/// The change that a row of the queue asks for: it is written where the
/// store lacks its id, stamped where the store holds it with another claim,
/// and left alone otherwise.
pub open spec fn row_change(stored: Seq<Stored>, rows: Seq<Row>, i: int) -> Option<Change> {
    match stored_job(stored, rows[i].musicbrainz_queue_id) {
        None => Some(Change::Insert(i as usize)),
        Some(held) => if held.started != rows[i].processing_started_at {
            Some(Change::Restamp(i as usize))
        } else {
            None
        },
    }
}

/// The changes that the first `n` rows of the queue ask for, in order.
pub open spec fn row_changes(stored: Seq<Stored>, rows: Seq<Row>, n: int) -> Seq<Change>
    decreases n,
{
    if n <= 0 {
        Seq::empty()
    } else {
        match row_change(stored, rows, n - 1) {
            Some(change) => row_changes(stored, rows, n - 1).push(change),
            None => row_changes(stored, rows, n - 1),
        }
    }
}

/// The deletions that the first `m` entries of the store ask for: one for
/// each whose id is no longer in the queue.
pub open spec fn deletions(stored: Seq<Stored>, rows: Seq<Row>, m: int) -> Seq<Change>
    decreases m,
{
    if m <= 0 {
        Seq::empty()
    } else if holds_job(rows, stored[m - 1].id as int) {
        deletions(stored, rows, m - 1)
    } else {
        deletions(stored, rows, m - 1).push(Change::Delete(stored[m - 1].id))
    }
}

/// The changes that bring a store up to the queue: what the rows ask for,
/// then the deletions.
pub open spec fn changes(stored: Seq<Stored>, rows: Seq<Row>) -> Seq<Change> {
    row_changes(stored, rows, rows.len() as int) + deletions(stored, rows, stored.len() as int)
}

/// What a store holds that is level with the queue.
pub open spec fn snapshot(rows: Seq<Row>, stored: Seq<Stored>) -> bool {
    &&& stored.len() == rows.len()
    &&& forall|i: int|
        0 <= i < rows.len() ==> (#[trigger] stored[i]).id == rows[i].musicbrainz_queue_id
            && stored[i].started == rows[i].processing_started_at
}

/// Looks up what the store holds under an id.
fn find_stored(stored: &Vec<Stored>, id: i32) -> (found: Option<Stored>)
    ensures
        found == stored_job(stored@, id as int),
{
    let n = stored.len();
    let mut i: usize = 0;
    assert(stored@.skip(0) =~= stored@);
    while i < n
        invariant
            n == stored@.len(),
            i <= n,
            stored_job(stored@, id as int) == stored_job(stored@.skip(i as int), id as int),
        decreases n - i,
    {
        assert(stored@.skip(i as int).first() == stored@[i as int]);
        assert(stored@.skip(i as int).drop_first() =~= stored@.skip(i + 1));
        if stored[i].id == id {
            return Some(stored[i]);
        }
        i += 1;
    }
    None
}

impl EnrichmentQueue {
    /// What a store holds once it is level with the queue.
    pub fn stored(&self) -> (stored: Vec<Stored>)
        ensures
            snapshot(self@, stored@),
    {
        let n = self.rows.len();
        let mut stored: Vec<Stored> = Vec::new();
        let mut i: usize = 0;
        while i < n
            invariant
                n == self@.len(),
                i <= n,
                stored@.len() == i,
                forall|j: int|
                    0 <= j < i ==> (#[trigger] stored@[j]).id == self@[j].musicbrainz_queue_id
                        && stored@[j].started == self@[j].processing_started_at,
            decreases n - i,
        {
            let row = self.rows.get(i);
            stored.push(
                Stored { id: row.musicbrainz_queue_id, started: row.processing_started_at },
            );
            i += 1;
        }
        stored
    }

    /// The changes that bring a store which holds `stored` up to the queue:
    /// each row that the store lacks is written, each row that was claimed
    /// since is stamped, and each stored row whose job is completed is
    /// deleted.
    pub fn changes(&self, stored: &Vec<Stored>) -> (out: Vec<Change>)
        ensures
            out@ == changes(stored@, self@),
    {
        let mut out: Vec<Change> = Vec::new();
        let n = self.rows.len();
        let mut i: usize = 0;
        while i < n
            invariant
                n == self@.len(),
                i <= n,
                out@ == row_changes(stored@, self@, i as int),
            decreases n - i,
        {
            let row = self.rows.get(i);
            match find_stored(stored, row.musicbrainz_queue_id) {
                None => {
                    out.push(Change::Insert(i));
                },
                Some(held) => {
                    if held.started != row.processing_started_at {
                        out.push(Change::Restamp(i));
                    }
                },
            }
            i += 1;
        }
        let ghost written = out@;
        let m = stored.len();
        let mut k: usize = 0;
        while k < m
            invariant
                m == stored@.len(),
                k <= m,
                out@ == written + deletions(stored@, self@, k as int),
            decreases m - k,
        {
            let id = stored[k].id;
            if self.rows.position(id).is_none() {
                out.push(Change::Delete(id));
            }
            k += 1;
        }
        out
    }
}

/// Whether the ids of what a store holds ascend.
pub open spec fn stored_ascending(stored: Seq<Stored>) -> bool {
    forall|a: int, b: int|
        0 <= a < b < stored.len() ==> (#[trigger] stored[a]).id < (#[trigger] stored[b]).id
}

/// Where the ids ascend, an id finds its own entry.
pub proof fn lemma_stored_job_at(stored: Seq<Stored>, i: int)
    requires
        stored_ascending(stored),
        0 <= i < stored.len(),
    ensures
        stored_job(stored, stored[i].id as int) == Some(stored[i]),
    decreases stored.len(),
{
    if i > 0 {
        let rest = stored.drop_first();
        assert(stored[0].id < stored[i].id);
        assert(rest[i - 1] == stored[i]);
        assert forall|a: int, b: int| 0 <= a < b < rest.len() implies (#[trigger] rest[a]).id < (
        #[trigger] rest[b]).id by {
            assert(rest[a] == stored[a + 1] && rest[b] == stored[b + 1]);
        }
        lemma_stored_job_at(rest, i - 1);
    }
}

/// A store that is level with the queue needs no change: once the changes
/// are written and the store holds what [`EnrichmentQueue::stored`]
/// reports, no further change is asked for until the queue changes.
pub proof fn law_level_store_needs_no_change(rows: Seq<Row>, stored: Seq<Stored>)
    requires
        ascending::<Model>(rows),
        snapshot(rows, stored),
    ensures
        changes(stored, rows) == Seq::<Change>::empty(),
{
    assert forall|a: int, b: int| 0 <= a < b < stored.len() implies (#[trigger] stored[a]).id < (
    #[trigger] stored[b]).id by {
        assert(Model::key(rows[a]) < Model::key(rows[b]));
    }
    lemma_no_row_changes(rows, stored, rows.len() as int);
    lemma_no_deletions(rows, stored, stored.len() as int);
}

/// The rows of a queue ask for no change of a store that is level with it.
proof fn lemma_no_row_changes(rows: Seq<Row>, stored: Seq<Stored>, n: int)
    requires
        stored_ascending(stored),
        snapshot(rows, stored),
        0 <= n <= rows.len(),
    ensures
        row_changes(stored, rows, n) == Seq::<Change>::empty(),
    decreases n,
{
    if n > 0 {
        lemma_no_row_changes(rows, stored, n - 1);
        lemma_stored_job_at(stored, n - 1);
    }
}

/// A store that is level with the queue holds no row to delete.
proof fn lemma_no_deletions(rows: Seq<Row>, stored: Seq<Stored>, m: int)
    requires
        snapshot(rows, stored),
        0 <= m <= stored.len(),
    ensures
        deletions(stored, rows, m) == Seq::<Change>::empty(),
    decreases m,
{
    if m > 0 {
        lemma_no_deletions(rows, stored, m - 1);
        assert(rows[m - 1].musicbrainz_queue_id == stored[m - 1].id);
    }
}

} // verus!
