//! The records of the catalog, one module per table.

pub mod artist;
pub mod artist_area;
pub mod artist_directory;
pub mod audio;
pub mod audio_artist;
pub mod audio_directory;
pub mod audio_tag;
pub mod directory;
pub mod musicbrainz_queue;
