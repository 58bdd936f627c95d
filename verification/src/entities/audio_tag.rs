//! Tags kept for an audio file, one row per retained key and value.

use crate::table::Record;
use vstd::prelude::*;

verus! {

/// One tag of one audio file.
pub struct Model {
    pub audio_tag_id: i32,
    pub audio_id: i32,
    pub name: String,
    pub value: String,
}

/// What a [`Model`] holds, as mathematical values.
pub struct Row {
    pub audio_tag_id: int,
    pub audio_id: int,
    pub name: Seq<char>,
    pub value: Seq<char>,
}

impl View for Model {
    type V = Row;

    open spec fn view(&self) -> Row {
        Row {
            audio_tag_id: self.audio_tag_id as int,
            audio_id: self.audio_id as int,
            name: self.name@,
            value: self.value@,
        }
    }
}

impl Record for Model {
    open spec fn key(row: Row) -> int {
        row.audio_tag_id
    }

    open spec fn rekeyed(row: Row, id: int) -> Row {
        Row { audio_tag_id: id, ..row }
    }

    fn id(&self) -> (id: i32) {
        self.audio_tag_id
    }

    fn with_id(self, id: i32) -> (record: Self) {
        Model { audio_tag_id: id, ..self }
    }
}

impl Model {
    /// A copy of this record.
    pub fn duplicate(&self) -> (copy: Model)
        ensures
            copy@ == self@,
    {
        Model {
            audio_tag_id: self.audio_tag_id,
            audio_id: self.audio_id,
            name: self.name.clone(),
            value: self.value.clone(),
        }
    }
}

} // verus!
