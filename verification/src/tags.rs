//! The tags of an audio file that the catalog keeps.

use crate::text::{opt_text, texts};
use vstd::prelude::*;

verus! {

/// Whether tags of this name are kept.
pub open spec fn is_stored_tag(name: Seq<char>) -> bool {
    name == "album"@ || name == "album-artist"@ || name == "album-disc-number"@ || name
        == "album-disc-count"@ || name == "artist"@ || name == "audio-codec"@ || name
        == "datetime"@ || name == "genre"@ || name == "title"@ || name == "track-number"@ || name
        == "track-count"@
}

/// Whether a tag of this name names the artist of the audio file.
pub open spec fn is_artist_tag(name: Seq<char>) -> bool {
    name == "artist"@
}

/// The name under which the catalog knows a tag that the extractor reports
/// under the key `key`. The keys of the kept tags are renamed; any other key
/// stays as it is.
pub open spec fn catalog_name(key: Seq<char>) -> Seq<char> {
    if key == "Album"@ {
        "album"@
    } else if key == "AlbumArtist"@ {
        "album-artist"@
    } else if key == "Artist"@ {
        "artist"@
    } else if key == "Date"@ {
        "datetime"@
    } else if key == "DiscNumber"@ {
        "album-disc-number"@
    } else if key == "DiscTotal"@ {
        "album-disc-count"@
    } else if key == "Genre"@ {
        "genre"@
    } else if key == "TrackNumber"@ {
        "track-number"@
    } else if key == "TrackTitle"@ {
        "title"@
    } else if key == "TrackTotal"@ {
        "track-count"@
    } else {
        key
    }
}

/// The name under which the catalog knows a tag of the extractor.
pub fn tag_name(key: &str) -> (name: String)
    ensures
        name@ == catalog_name(key@),
{
    if *key == *"Album" {
        "album".to_owned()
    } else if *key == *"AlbumArtist" {
        "album-artist".to_owned()
    } else if *key == *"Artist" {
        "artist".to_owned()
    } else if *key == *"Date" {
        "datetime".to_owned()
    } else if *key == *"DiscNumber" {
        "album-disc-number".to_owned()
    } else if *key == *"DiscTotal" {
        "album-disc-count".to_owned()
    } else if *key == *"Genre" {
        "genre".to_owned()
    } else if *key == *"TrackNumber" {
        "track-number".to_owned()
    } else if *key == *"TrackTitle" {
        "title".to_owned()
    } else if *key == *"TrackTotal" {
        "track-count".to_owned()
    } else {
        key.to_owned()
    }
}

/// Whether tags of this name are kept.
pub fn stores_tag(name: &str) -> (kept: bool)
    ensures
        kept == is_stored_tag(name@),
{
    *name == *"album" || *name == *"album-artist" || *name == *"album-disc-number" || *name
        == *"album-disc-count" || *name == *"artist" || *name == *"audio-codec" || *name
        == *"datetime" || *name == *"genre" || *name == *"title" || *name == *"track-number"
        || *name == *"track-count"
}

/// Whether a tag of this name names the artist of the audio file.
pub fn names_artist(name: &str) -> (artist: bool)
    ensures
        artist == is_artist_tag(name@),
{
    *name == *"artist"
}

/// The value of a tag, for the tags that are kept.
pub fn get_tag_value(t: &str, v: &str) -> (value: Option<String>)
    ensures
        opt_text(value) == if is_stored_tag(t@) {
            Some(v@)
        } else {
            None
        },
{
    if stores_tag(t) {
        Some(v.to_owned())
    } else {
        None
    }
}

/// The values of a tag that are kept: all of them, or none.
pub fn get_tags(name: &str, values: &Vec<String>) -> (tags: Vec<String>)
    ensures
        texts(tags@) == if is_stored_tag(name@) {
            texts(values@)
        } else {
            Seq::empty()
        },
{
    let mut tags: Vec<String> = Vec::new();
    let n = values.len();
    let mut i: usize = 0;
    while i < n
        invariant
            n == values@.len(),
            i <= n,
            texts(tags@) == if is_stored_tag(name@) {
                texts(values@).take(i as int)
            } else {
                Seq::empty()
            },
        decreases n - i,
    {
        match get_tag_value(name, values[i].as_str()) {
            Some(value) => {
                tags.push(value);
                assert(texts(values@).take(i + 1) =~= texts(values@).take(i as int).push(
                    values@[i as int]@,
                ));
            },
            None => {},
        }
        i += 1;
    }
    tags
}

} // verus!
