//! Links between artists and the directories that hold their audio.

use crate::table::Record;
use vstd::prelude::*;

verus! {

/// One artist found in one directory.
#[derive(Clone, Copy, Debug, PartialEq, Eq, Structural)]
pub struct Model {
    pub artist_directory_id: i32,
    pub created: i64,
    pub updated: i64,
    pub artist_id: i32,
    pub directory_id: i32,
}

/// What a [`Model`] holds, as mathematical values.
pub struct Row {
    pub artist_directory_id: int,
    pub created: i64,
    pub updated: i64,
    pub artist_id: int,
    pub directory_id: int,
}

impl View for Model {
    type V = Row;

    open spec fn view(&self) -> Row {
        Row {
            artist_directory_id: self.artist_directory_id as int,
            created: self.created,
            updated: self.updated,
            artist_id: self.artist_id as int,
            directory_id: self.directory_id as int,
        }
    }
}

impl Record for Model {
    open spec fn key(row: Row) -> int {
        row.artist_directory_id
    }

    open spec fn rekeyed(row: Row, id: int) -> Row {
        Row { artist_directory_id: id, ..row }
    }

    fn id(&self) -> (id: i32) {
        self.artist_directory_id
    }

    fn with_id(self, id: i32) -> (record: Self) {
        Model { artist_directory_id: id, ..self }
    }
}

} // verus!
