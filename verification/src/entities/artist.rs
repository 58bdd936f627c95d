//! Artists, known locally or resolved against the external directory.

use crate::database::{RiaArtistType, RiaGender};
use crate::table::{opt_id, Record};
use vstd::prelude::*;

verus! {

/// One artist.
pub struct Model {
    pub artist_id: i32,
    pub name: String,
    pub musicbrainz_name: String,
    pub musicbrainz_id: String,
    pub sort_name: String,
    pub disambiguation_comment: String,
    pub artist_area_id: Option<i32>,
    pub artist_type: Option<RiaArtistType>,
    pub gender: Option<RiaGender>,
}

/// What a [`Model`] holds, as mathematical values.
pub struct Row {
    pub artist_id: int,
    pub name: Seq<char>,
    pub musicbrainz_name: Seq<char>,
    pub musicbrainz_id: Seq<char>,
    pub sort_name: Seq<char>,
    pub disambiguation_comment: Seq<char>,
    pub artist_area_id: Option<int>,
    pub artist_type: Option<RiaArtistType>,
    pub gender: Option<RiaGender>,
}

impl View for Model {
    type V = Row;

    open spec fn view(&self) -> Row {
        Row {
            artist_id: self.artist_id as int,
            name: self.name@,
            musicbrainz_name: self.musicbrainz_name@,
            musicbrainz_id: self.musicbrainz_id@,
            sort_name: self.sort_name@,
            disambiguation_comment: self.disambiguation_comment@,
            artist_area_id: opt_id(self.artist_area_id),
            artist_type: self.artist_type,
            gender: self.gender,
        }
    }
}

impl Record for Model {
    open spec fn key(row: Row) -> int {
        row.artist_id
    }

    open spec fn rekeyed(row: Row, id: int) -> Row {
        Row { artist_id: id, ..row }
    }

    fn id(&self) -> (id: i32) {
        self.artist_id
    }

    fn with_id(self, id: i32) -> (record: Self) {
        Model { artist_id: id, ..self }
    }
}

impl Model {
    /// A copy of this record.
    pub fn duplicate(&self) -> (copy: Model)
        ensures
            copy@ == self@,
    {
        Model {
            artist_id: self.artist_id,
            name: self.name.clone(),
            musicbrainz_name: self.musicbrainz_name.clone(),
            musicbrainz_id: self.musicbrainz_id.clone(),
            sort_name: self.sort_name.clone(),
            disambiguation_comment: self.disambiguation_comment.clone(),
            artist_area_id: self.artist_area_id,
            artist_type: self.artist_type,
            gender: self.gender,
        }
    }
}

} // verus!
