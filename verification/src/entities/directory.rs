//! Filesystem directories that hold audio files.

use crate::table::Record;
use vstd::prelude::*;

verus! {

/// One directory, as one grouping pass recorded it.
pub struct Model {
    pub directory_id: i32,
    pub created: i64,
    pub updated: i64,
    pub name: String,
    pub path: String,
}

/// What a [`Model`] holds, as mathematical values.
pub struct Row {
    pub directory_id: int,
    pub created: i64,
    pub updated: i64,
    pub name: Seq<char>,
    pub path: Seq<char>,
}

impl View for Model {
    type V = Row;

    open spec fn view(&self) -> Row {
        Row {
            directory_id: self.directory_id as int,
            created: self.created,
            updated: self.updated,
            name: self.name@,
            path: self.path@,
        }
    }
}

impl Record for Model {
    open spec fn key(row: Row) -> int {
        row.directory_id
    }

    open spec fn rekeyed(row: Row, id: int) -> Row {
        Row { directory_id: id, ..row }
    }

    fn id(&self) -> (id: i32) {
        self.directory_id
    }

    fn with_id(self, id: i32) -> (record: Self) {
        Model { directory_id: id, ..self }
    }
}

impl Model {
    /// A copy of this record.
    pub fn duplicate(&self) -> (copy: Model)
        ensures
            copy@ == self@,
    {
        Model {
            directory_id: self.directory_id,
            created: self.created,
            updated: self.updated,
            name: self.name.clone(),
            path: self.path.clone(),
        }
    }
}

} // verus!
