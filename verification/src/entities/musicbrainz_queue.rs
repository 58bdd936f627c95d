//! Deferred artist-resolution jobs.

use crate::table::Record;
use crate::text::{copy_opt, opt_text};
use vstd::prelude::*;

verus! {

/// One job. It is pending while `processing_started_at` is `None`, and
/// claimed once that is stamped.
pub struct Model {
    pub musicbrainz_queue_id: i32,
    pub created_at: i64,
    pub processing_started_at: Option<i64>,
    pub errors: Option<String>,
    pub payload: Option<String>,
}

/// What a [`Model`] holds, as mathematical values.
pub struct Row {
    pub musicbrainz_queue_id: int,
    pub created_at: i64,
    pub processing_started_at: Option<i64>,
    pub errors: Option<Seq<char>>,
    pub payload: Option<Seq<char>>,
}

impl View for Model {
    type V = Row;

    open spec fn view(&self) -> Row {
        Row {
            musicbrainz_queue_id: self.musicbrainz_queue_id as int,
            created_at: self.created_at,
            processing_started_at: self.processing_started_at,
            errors: opt_text(self.errors),
            payload: opt_text(self.payload),
        }
    }
}

impl Record for Model {
    open spec fn key(row: Row) -> int {
        row.musicbrainz_queue_id
    }

    open spec fn rekeyed(row: Row, id: int) -> Row {
        Row { musicbrainz_queue_id: id, ..row }
    }

    fn id(&self) -> (id: i32) {
        self.musicbrainz_queue_id
    }

    fn with_id(self, id: i32) -> (record: Self) {
        Model { musicbrainz_queue_id: id, ..self }
    }
}

impl Model {
    /// A copy of this record.
    pub fn duplicate(&self) -> (copy: Model)
        ensures
            copy@ == self@,
    {
        Model {
            musicbrainz_queue_id: self.musicbrainz_queue_id,
            created_at: self.created_at,
            processing_started_at: self.processing_started_at,
            errors: copy_opt(&self.errors),
            payload: copy_opt(&self.payload),
        }
    }
}

} // verus!
