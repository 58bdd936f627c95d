//! Links between audio files and artists.

use crate::table::Record;
use vstd::prelude::*;

verus! {

/// One audio file credited to one artist.
#[derive(Clone, Copy, Debug, PartialEq, Eq, Structural)]
pub struct Model {
    pub audio_artist_id: i32,
    pub audio_id: i32,
    pub artist_id: i32,
}

/// What a [`Model`] holds, as mathematical values.
pub struct Row {
    pub audio_artist_id: int,
    pub audio_id: int,
    pub artist_id: int,
}

impl View for Model {
    type V = Row;

    open spec fn view(&self) -> Row {
        Row {
            audio_artist_id: self.audio_artist_id as int,
            audio_id: self.audio_id as int,
            artist_id: self.artist_id as int,
        }
    }
}

impl Record for Model {
    open spec fn key(row: Row) -> int {
        row.audio_artist_id
    }

    open spec fn rekeyed(row: Row, id: int) -> Row {
        Row { audio_artist_id: id, ..row }
    }

    fn id(&self) -> (id: i32) {
        self.audio_artist_id
    }

    fn with_id(self, id: i32) -> (record: Self) {
        Model { audio_artist_id: id, ..self }
    }
}

} // verus!
