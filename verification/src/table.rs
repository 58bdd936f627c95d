//! A table of records keyed by an ascending integer id, the shape shared by
//! every table of the catalog and by the enrichment queue.

use vstd::prelude::*;

verus! {

/// Why the store refused an operation.
#[derive(Clone, Copy, Debug, PartialEq, Eq, Structural)]
pub enum CatalogError {
    /// The table's id space is used up.
    Full,
    /// A loaded row's id is not above the ids already in the table, or is
    /// below 1.
    OutOfOrder,
    /// An audio record with the same `uri` is already stored.
    DuplicateUri,
    /// A job with the same payload is already queued.
    DuplicatePayload,
}

/// An optional id, as a mathematical integer.
pub open spec fn opt_id(id: Option<i32>) -> Option<int> {
    match id {
        Some(id) => Some(id as int),
        None => None,
    }
}

/// Ids as mathematical integers.
pub open spec fn ids(values: Seq<i32>) -> Seq<int> {
    values.map_values(|id: i32| id as int)
}

/// A record with an integer primary key.
pub trait Record: View + Sized {
    /// The primary key of a row.
    spec fn key(row: Self::V) -> int;

    /// The same row under another primary key.
    spec fn rekeyed(row: Self::V, id: int) -> Self::V;

    /// This record's primary key.
    fn id(&self) -> (id: i32)
        ensures
            id == Self::key(self@),
    ;

    /// This record under another primary key.
    fn with_id(self, id: i32) -> (record: Self)
        ensures
            record@ == Self::rekeyed(self@, id as int),
            Self::key(record@) == id,
    ;
}

/// Rows in insertion order, with ids that start at 1 or above and ascend.
pub struct Table<R: Record> {
    rows: Vec<R>,
}

/// Whether the ids of `rows` are at least 1 and strictly ascending.
pub open spec fn ascending<R: Record>(rows: Seq<R::V>) -> bool {
    &&& forall|i: int| 0 <= i < rows.len() ==> R::key(#[trigger] rows[i]) >= 1
    &&& forall|i: int, j: int|
        0 <= i < j < rows.len() ==> R::key(#[trigger] rows[i]) < R::key(#[trigger] rows[j])
}

/// The id that the next inserted row gets: one above the last row's, or 1.
pub open spec fn next_key<R: Record>(rows: Seq<R::V>) -> int {
    if rows.len() == 0 {
        1
    } else {
        R::key(rows.last()) + 1
    }
}

impl<R: Record> View for Table<R> {
    type V = Seq<R::V>;

    closed spec fn view(&self) -> Seq<R::V> {
        self.rows@.map_values(|r: R| r@)
    }
}

impl<R: Record> Table<R> {
    /// The table's invariant: ids ascend.
    pub open spec fn wf(&self) -> bool {
        ascending::<R>(self@)
    }

    /// An empty table.
    pub fn new() -> (table: Self)
        ensures
            table@ == Seq::<R::V>::empty(),
            table.wf(),
    {
        let table = Table { rows: Vec::new() };
        table
    }

    /// Number of rows.
    pub fn len(&self) -> (n: usize)
        ensures
            n == self@.len(),
    {
        self.rows.len()
    }

    /// The row at position `i`.
    pub fn get(&self, i: usize) -> (row: &R)
        requires
            i < self@.len(),
        ensures
            row@ == self@[i as int],
    {
        &self.rows[i]
    }

    /// The position of the first row that a store lacks which holds the
    /// first `count` rows: rows are only ever appended to a table of the
    /// catalog, so the rows from there on are the ones to write out.
    pub fn first_unsaved(&self, count: usize) -> (first: usize)
        ensures
            first <= self@.len(),
            first == if count <= self@.len() {
                count
            } else {
                self@.len() as usize
            },
    {
        if count <= self.rows.len() {
            count
        } else {
            self.rows.len()
        }
    }

    /// The id for the next inserted row, unless the id space is used up.
    pub fn next_id(&self) -> (id: Option<i32>)
        requires
            self.wf(),
        ensures
            id == if next_key::<R>(self@) <= i32::MAX {
                Some(next_key::<R>(self@) as i32)
            } else {
                None
            },
    {
        let n = self.rows.len();
        if n == 0 {
            Some(1)
        } else {
            let last = self.rows[n - 1].id();
            if last < i32::MAX {
                Some(last + 1)
            } else {
                None
            }
        }
    }

    /// Whether `count` more rows can be inserted before the id space is
    /// used up.
    pub fn has_room(&self, count: usize) -> (room: bool)
        requires
            self.wf(),
        ensures
            room == (next_key::<R>(self@) + count <= i32::MAX + 1),
    {
        let n = self.rows.len();
        let next: i64 = if n == 0 {
            1
        } else {
            self.rows[n - 1].id() as i64 + 1
        };
        let free: i64 = i32::MAX as i64 + 1 - next;
        count <= i32::MAX as usize && count as i64 <= free
    }

    /// Appends `row` under its own id, which must lie above every id in the
    /// table.
    pub fn load(&mut self, row: R) -> (outcome: Result<(), CatalogError>)
        requires
            old(self).wf(),
        ensures
            final(self).wf(),
            outcome is Ok <==> R::key(row@) >= next_key::<R>(old(self)@),
            outcome is Ok ==> final(self)@ == old(self)@.push(row@),
            outcome is Err ==> outcome == Err::<(), CatalogError>(CatalogError::OutOfOrder)
                && final(self)@ == old(self)@,
    {
        let n = self.rows.len();
        let id = row.id();
        let fits = if n == 0 {
            id >= 1
        } else {
            id > self.rows[n - 1].id()
        };
        if !fits {
            return Err(CatalogError::OutOfOrder);
        }
        self.rows.push(row);
        proof {
            assert(self@ =~= old(self)@.push(row@));
            assert forall|i: int, j: int| 0 <= i < j < self@.len() implies R::key(
                #[trigger] self@[i],
            ) < R::key(#[trigger] self@[j]) by {
                if j == n && n > 0 {
                    assert(R::key(old(self)@[i]) <= R::key(old(self)@[n - 1]));
                }
            }
        }
        Ok(())
    }

    /// Appends `row` under the next free id and returns that id.
    pub fn insert(&mut self, row: R) -> (outcome: Result<i32, CatalogError>)
        requires
            old(self).wf(),
        ensures
            final(self).wf(),
            match outcome {
                Ok(id) => id == next_key::<R>(old(self)@) && final(self)@ == old(self)@.push(
                    R::rekeyed(row@, id as int),
                ),
                Err(e) => e == CatalogError::Full && next_key::<R>(old(self)@) > i32::MAX
                    && final(self)@ == old(self)@,
            },
    {
        match self.next_id() {
            Some(id) => {
                let keyed = row.with_id(id);
                match self.load(keyed) {
                    Ok(()) => Ok(id),
                    Err(e) => Err(e),
                }
            },
            None => Err(CatalogError::Full),
        }
    }

    /// The position of the row with this id, if the table has one.
    pub fn position(&self, id: i32) -> (found: Option<usize>)
        ensures
            match found {
                Some(i) => i < self@.len() && R::key(self@[i as int]) == id,
                None => forall|i: int| 0 <= i < self@.len() ==> R::key(#[trigger] self@[i]) != id,
            },
    {
        let n = self.rows.len();
        let mut i: usize = 0;
        while i < n
            invariant
                n == self@.len(),
                n == self.rows@.len(),
                i <= n,
                forall|j: int| 0 <= j < i ==> R::key(#[trigger] self@[j]) != id,
            decreases n - i,
        {
            if self.rows[i].id() == id {
                return Some(i);
            }
            i += 1;
        }
        None
    }

    /// Removes the row at position `i`.
    pub(crate) fn remove(&mut self, i: usize)
        requires
            old(self).wf(),
            i < old(self)@.len(),
        ensures
            final(self).wf(),
            final(self)@ == old(self)@.remove(i as int),
    {
        self.rows.remove(i);
        assert(self@ =~= old(self)@.remove(i as int));
    }

    /// Replaces the row at position `i` by one with the same id.
    pub(crate) fn replace(&mut self, i: usize, row: R)
        requires
            old(self).wf(),
            i < old(self)@.len(),
            R::key(row@) == R::key(old(self)@[i as int]),
        ensures
            final(self).wf(),
            final(self)@ == old(self)@.update(i as int, row@),
    {
        self.rows.set(i, row);
        assert(self@ =~= old(self)@.update(i as int, row@));
    }
}

} // verus!
