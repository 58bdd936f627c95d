//! Audio files found below the library root.

use crate::table::Record;
use vstd::prelude::*;

verus! {

/// One audio file. `uri` identifies it.
pub struct Model {
    pub audio_id: i32,
    pub uri: String,
    pub path: String,
    pub name: String,
    pub extension: String,
    pub format: String,
    pub duration: i32,
    pub channels: i32,
    pub bits: i32,
    pub hertz: i32,
}

/// What a [`Model`] holds, as mathematical values.
pub struct Row {
    pub audio_id: int,
    pub uri: Seq<char>,
    pub path: Seq<char>,
    pub name: Seq<char>,
    pub extension: Seq<char>,
    pub format: Seq<char>,
    pub duration: i32,
    pub channels: i32,
    pub bits: i32,
    pub hertz: i32,
}

impl View for Model {
    type V = Row;

    open spec fn view(&self) -> Row {
        Row {
            audio_id: self.audio_id as int,
            uri: self.uri@,
            path: self.path@,
            name: self.name@,
            extension: self.extension@,
            format: self.format@,
            duration: self.duration,
            channels: self.channels,
            bits: self.bits,
            hertz: self.hertz,
        }
    }
}

impl Record for Model {
    open spec fn key(row: Row) -> int {
        row.audio_id
    }

    open spec fn rekeyed(row: Row, id: int) -> Row {
        Row { audio_id: id, ..row }
    }

    fn id(&self) -> (id: i32) {
        self.audio_id
    }

    fn with_id(self, id: i32) -> (record: Self) {
        Model { audio_id: id, ..self }
    }
}

impl Model {
    /// A copy of this record.
    pub fn duplicate(&self) -> (copy: Model)
        ensures
            copy@ == self@,
    {
        Model {
            audio_id: self.audio_id,
            uri: self.uri.clone(),
            path: self.path.clone(),
            name: self.name.clone(),
            extension: self.extension.clone(),
            format: self.format.clone(),
            duration: self.duration,
            channels: self.channels,
            bits: self.bits,
            hertz: self.hertz,
        }
    }
}

} // verus!
