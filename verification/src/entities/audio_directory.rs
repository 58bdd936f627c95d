//! Links between audio files and the directories that hold them.

use crate::table::Record;
use vstd::prelude::*;

verus! {

/// One audio file in one directory.
#[derive(Clone, Copy, Debug, PartialEq, Eq, Structural)]
pub struct Model {
    pub audio_directory_id: i32,
    pub created: i64,
    pub updated: i64,
    pub directory_id: i32,
    pub audio_id: i32,
}

/// What a [`Model`] holds, as mathematical values.
pub struct Row {
    pub audio_directory_id: int,
    pub created: i64,
    pub updated: i64,
    pub directory_id: int,
    pub audio_id: int,
}

impl View for Model {
    type V = Row;

    open spec fn view(&self) -> Row {
        Row {
            audio_directory_id: self.audio_directory_id as int,
            created: self.created,
            updated: self.updated,
            directory_id: self.directory_id as int,
            audio_id: self.audio_id as int,
        }
    }
}

impl Record for Model {
    open spec fn key(row: Row) -> int {
        row.audio_directory_id
    }

    open spec fn rekeyed(row: Row, id: int) -> Row {
        Row { audio_directory_id: id, ..row }
    }

    fn id(&self) -> (id: i32) {
        self.audio_directory_id
    }

    fn with_id(self, id: i32) -> (record: Self) {
        Model { audio_directory_id: id, ..self }
    }
}

} // verus!
