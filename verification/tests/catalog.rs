use ria::catalog::{AudioTable, Catalog};
use ria::entities::{artist_directory, audio, audio_directory, audio_tag};
use ria::media::{store_artist_directory, store_audio_artist};
use ria::musicbrainz::{load_artist_by_name, settle};
use ria::table::{CatalogError, Table};

fn record(id: i32, uri: &str, path: &str) -> audio::Model {
    audio::Model {
        audio_id: id,
        uri: uri.to_string(),
        path: path.to_string(),
        name: "x".to_string(),
        extension: String::new(),
        format: "UNKNOWN".to_string(),
        duration: 0,
        channels: 0,
        bits: 0,
        hertz: 0,
    }
}

fn artist(name: &str) -> ria::entities::artist::Model {
    ria::entities::artist::Model {
        artist_id: 0,
        name: name.to_string(),
        musicbrainz_name: String::new(),
        musicbrainz_id: String::new(),
        sort_name: String::new(),
        disambiguation_comment: String::new(),
        artist_area_id: None,
        artist_type: None,
        gender: None,
    }
}

fn in_directory(directory_id: i32, audio_id: i32) -> audio_directory::Model {
    audio_directory::Model {
        audio_directory_id: 0,
        created: 0,
        updated: 0,
        directory_id,
        audio_id,
    }
}

#[test]
fn a_uri_is_stored_once() {
    let mut table = AudioTable::new();
    assert_eq!(table.insert(record(0, "file:///a", "/")), Ok(1));
    assert_eq!(table.insert(record(0, "file:///b", "/")), Ok(2));
    assert_eq!(table.insert(record(0, "file:///a", "/")), Err(CatalogError::DuplicateUri));
    assert_eq!(table.insert(record(0, "file:///A", "/")), Ok(3));
    assert_eq!(table.find_by_uri("file:///b"), Some(2));
    assert_eq!(table.find_by_uri("file:///c"), None);
    assert_eq!(table.rows().len(), 3);
}

#[test]
fn loading_keeps_ids_and_their_order() {
    let mut table = AudioTable::new();
    assert_eq!(table.load(record(3, "file:///a", "/")), Ok(()));
    assert_eq!(table.load(record(3, "file:///b", "/")), Err(CatalogError::OutOfOrder));
    assert_eq!(table.load(record(2, "file:///b", "/")), Err(CatalogError::OutOfOrder));
    assert_eq!(table.load(record(9, "file:///a", "/")), Err(CatalogError::DuplicateUri));
    assert_eq!(table.load(record(9, "file:///b", "/")), Ok(()));
    assert_eq!(table.insert(record(0, "file:///c", "/")), Ok(10));
    assert_eq!(table.rows().get(0).audio_id, 3);
    assert_eq!(table.rows().get(2).audio_id, 10);
    let copy = table.rows().get(1).duplicate();
    assert_eq!(copy.audio_id, 9);
    assert_eq!(copy.uri, "file:///b");
}

#[test]
fn a_table_hands_out_ascending_ids() {
    let mut table: Table<audio_tag::Model> = Table::new();
    assert_eq!(table.next_id(), Some(1));
    let tag = |id: i32| audio_tag::Model {
        audio_tag_id: id,
        audio_id: 1,
        name: "title".to_string(),
        value: "t".to_string(),
    };
    assert_eq!(table.insert(tag(77)), Ok(1));
    assert_eq!(table.get(0).audio_tag_id, 1);
    assert_eq!(table.load(tag(1)), Err(CatalogError::OutOfOrder));
    assert_eq!(table.load(tag(5)), Ok(()));
    assert_eq!(table.next_id(), Some(6));
    assert_eq!(table.first_unsaved(0), 0);
    assert_eq!(table.first_unsaved(1), 1);
    assert_eq!(table.first_unsaved(2), 2);
    assert_eq!(table.first_unsaved(7), 2);
    assert_eq!(table.position(5), Some(1));
    assert_eq!(table.position(2), None);
    assert_eq!(table.len(), 2);
    assert_eq!(table.get(1).duplicate().audio_tag_id, 5);
    assert!(table.has_room(2147483642));
    assert!(!table.has_room(2147483643));
    assert_eq!(table.load(tag(i32::MAX)), Ok(()));
    assert_eq!(table.next_id(), None);
    assert_eq!(table.insert(tag(0)), Err(CatalogError::Full));
    assert!(table.has_room(0));
    assert!(!table.has_room(1));
}

#[test]
fn an_artist_is_linked_to_each_directory_once() {
    let mut catalog = Catalog::new();
    catalog.audio_directories.insert(in_directory(10, 1)).unwrap();
    catalog.audio_directories.insert(in_directory(11, 2)).unwrap();
    catalog.audio_directories.insert(in_directory(12, 1)).unwrap();
    catalog.audio_directories.insert(in_directory(10, 1)).unwrap();
    assert_eq!(catalog.directories_of(1), vec![10, 12, 10]);
    assert_eq!(catalog.directories_of(3), Vec::<i32>::new());
    assert_eq!(store_artist_directory(&mut catalog, 1, 5, 99), Ok(()));
    assert_eq!(catalog.artist_directories.len(), 2);
    let first: artist_directory::Model = *catalog.artist_directories.get(0);
    assert_eq!(
        first,
        artist_directory::Model {
            artist_directory_id: 1,
            created: 99,
            updated: 99,
            artist_id: 5,
            directory_id: 10,
        }
    );
    assert_eq!(catalog.artist_directories.get(1).directory_id, 12);
    assert!(catalog.has_artist_directory(5, 12));
    assert!(!catalog.has_artist_directory(5, 11));
    assert!(!catalog.has_artist_directory(6, 12));
    assert_eq!(store_artist_directory(&mut catalog, 1, 5, 100), Ok(()));
    assert_eq!(catalog.artist_directories.len(), 2);
    assert_eq!(store_artist_directory(&mut catalog, 2, 5, 100), Ok(()));
    assert_eq!(catalog.artist_directories.len(), 3);
    assert_eq!(catalog.artist_directories.get(2).directory_id, 11);
}

#[test]
fn links_are_refused_when_the_ids_are_used_up() {
    let mut catalog = Catalog::new();
    catalog.audio_directories.insert(in_directory(10, 1)).unwrap();
    catalog
        .artist_directories
        .load(artist_directory::Model {
            artist_directory_id: i32::MAX,
            created: 0,
            updated: 0,
            artist_id: 1,
            directory_id: 1,
        })
        .unwrap();
    assert_eq!(store_artist_directory(&mut catalog, 1, 5, 1), Err(CatalogError::Full));
    assert_eq!(store_artist_directory(&mut catalog, 2, 5, 1), Ok(()));
    assert_eq!(settle(&mut catalog, 1, 5, 1), Err(CatalogError::Full));
    assert_eq!(catalog.audio_artists.len(), 0);
    assert_eq!(settle(&mut catalog, 2, 5, 1), Ok(()));
    assert_eq!(catalog.audio_artists.len(), 1);
    assert_eq!(store_audio_artist(&mut catalog, 3, 4), Ok(()));
    assert_eq!(catalog.audio_artists.get(1).audio_artist_id, 2);
    assert_eq!(catalog.audio_artists.get(1).audio_id, 3);
    assert_eq!(catalog.audio_artists.get(1).artist_id, 4);
}

#[test]
fn artists_and_areas_are_found_by_exact_name() {
    let mut catalog = Catalog::new();
    catalog.artists.insert(artist("Radiohead")).unwrap();
    catalog.artists.insert(artist("Sigur\\ R\u{f3}s")).unwrap();
    catalog.artists.insert(artist("Radiohead")).unwrap();
    assert_eq!(catalog.find_artist_by_name("Radiohead"), Some(1));
    assert_eq!(catalog.find_artist_by_name("radiohead"), None);
    assert_eq!(catalog.find_artist_by_name("Radio"), None);
    assert_eq!(load_artist_by_name(&catalog, "Radiohead"), Some(1));
    assert_eq!(load_artist_by_name(&catalog, "Sigur\\ R\u{f3}s"), Some(2));
    assert_eq!(load_artist_by_name(&catalog, "Sigur R\u{f3}s"), None);
    catalog.artists.insert(artist("Sigur R\u{f3}s")).unwrap();
    assert_eq!(load_artist_by_name(&catalog, "Sigur R\u{f3}s"), Some(4));
    assert_eq!(catalog.find_area_by_name("Iceland"), None);
}

#[test]
fn paths_are_listed_once_in_the_order_of_their_first_record() {
    let mut catalog = Catalog::new();
    catalog.audio.insert(record(0, "1", "/b")).unwrap();
    catalog.audio.insert(record(0, "2", "/a")).unwrap();
    catalog.audio.insert(record(0, "3", "/b")).unwrap();
    catalog.audio.insert(record(0, "4", "")).unwrap();
    assert_eq!(catalog.distinct_paths(), vec!["/b", "/a", ""]);
    assert_eq!(catalog.audio_in("/b"), vec![1, 3]);
    assert_eq!(catalog.audio_in("/a"), vec![2]);
    assert_eq!(catalog.audio_in("/c"), Vec::<i32>::new());
}
