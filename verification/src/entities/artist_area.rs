//! Geographic or administrative areas that artists are associated with.

use crate::table::Record;
use vstd::prelude::*;

verus! {

/// One area.
pub struct Model {
    pub artist_area_id: i32,
    pub area_type: String,
    pub name: String,
    pub sort_name: String,
    pub disambiguation: String,
}

/// What a [`Model`] holds, as mathematical values.
pub struct Row {
    pub artist_area_id: int,
    pub area_type: Seq<char>,
    pub name: Seq<char>,
    pub sort_name: Seq<char>,
    pub disambiguation: Seq<char>,
}

impl View for Model {
    type V = Row;

    open spec fn view(&self) -> Row {
        Row {
            artist_area_id: self.artist_area_id as int,
            area_type: self.area_type@,
            name: self.name@,
            sort_name: self.sort_name@,
            disambiguation: self.disambiguation@,
        }
    }
}

impl Record for Model {
    open spec fn key(row: Row) -> int {
        row.artist_area_id
    }

    open spec fn rekeyed(row: Row, id: int) -> Row {
        Row { artist_area_id: id, ..row }
    }

    fn id(&self) -> (id: i32) {
        self.artist_area_id
    }

    fn with_id(self, id: i32) -> (record: Self) {
        Model { artist_area_id: id, ..self }
    }
}

impl Model {
    /// A copy of this record.
    pub fn duplicate(&self) -> (copy: Model)
        ensures
            copy@ == self@,
    {
        Model {
            artist_area_id: self.artist_area_id,
            area_type: self.area_type.clone(),
            name: self.name.clone(),
            sort_name: self.sort_name.clone(),
            disambiguation: self.disambiguation.clone(),
        }
    }
}

} // verus!
