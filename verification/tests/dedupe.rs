use mood_tracks::models::Song;
use mood_tracks::utils::{generate_rand_id, remove_duplicates, ID_LENGTH};

fn track(uuid: &str, title: &str, artist: &str, album: &str) -> Song {
    Song {
        uuid: uuid.to_string(),
        title: title.to_string(),
        artist: artist.to_string(),
        album: album.to_string(),
        cover_art: "art".to_string(),
        preview_url: "url".to_string(),
    }
}

#[test]
fn test_llmresult_vector_duplicates() {
    let mut arr = vec![
        Song {
            title: "afro".to_string(),
            artist: "fela".to_string(),
            album: "1999 Hella".to_string(),
            uuid: "uuid".to_string(),
            cover_art: "art".to_string(),
            preview_url: "url".to_string(),
        },
        Song {
            title: "aa".to_string(),
            artist: "artist".to_string(),
            album: "1 Hella".to_string(),
            uuid: "uuid".to_string(),
            cover_art: "art".to_string(),
            preview_url: "url".to_string(),
        },
        Song {
            title: "afro".to_string(),
            artist: "fela".to_string(),
            album: "1999 Hella".to_string(),
            uuid: "uuid".to_string(),
            cover_art: "art".to_string(),
            preview_url: "url".to_string(),
        },
    ];

    remove_duplicates(&mut arr);

    assert_eq!(arr.len(), 2);
}

#[test]
fn remove_duplicates_reports_how_many_left() {
    let mut arr = vec![
        track("1", "a", "x", "one"),
        track("2", "a", "y", "one"),
        track("3", "b", "x", "one"),
        track("4", "a", "z", "one"),
        track("5", "b", "z", "one"),
    ];
    let removed = remove_duplicates(&mut arr);
    assert_eq!(removed, 3);
    assert_eq!(arr, vec![track("1", "a", "x", "one"), track("3", "b", "x", "one")]);
}

#[test]
fn remove_duplicates_keeps_first_occurrence_and_order() {
    let mut arr = vec![
        track("1", "c", "x", "k"),
        track("2", "a", "x", "k"),
        track("3", "c", "y", "k"),
        track("4", "b", "x", "k"),
        track("5", "a", "y", "k"),
    ];
    remove_duplicates(&mut arr);
    let ids: Vec<&str> = arr.iter().map(|s| s.uuid.as_str()).collect();
    assert_eq!(ids, vec!["1", "2", "4"]);
}

#[test]
fn remove_duplicates_goes_by_title_and_album_only() {
    let mut arr = vec![
        track("1", "same", "x", "album one"),
        track("2", "same", "x", "album two"),
        track("3", "other", "x", "album one"),
        track("1", "same", "other artist", "album one"),
    ];
    let removed = remove_duplicates(&mut arr);
    assert_eq!(removed, 1);
    assert_eq!(arr.len(), 3);
    assert_eq!(arr[0].artist, "x");
}

#[test]
fn remove_duplicates_is_idempotent() {
    let mut arr = vec![
        track("1", "a", "x", "k"),
        track("2", "a", "x", "k"),
        track("3", "b", "x", "k"),
        track("4", "b", "x", "k"),
        track("5", "a", "x", "k"),
    ];
    remove_duplicates(&mut arr);
    let once = arr.clone();
    let removed = remove_duplicates(&mut arr);
    assert_eq!(removed, 0);
    assert_eq!(arr, once);
}

#[test]
fn remove_duplicates_on_empty_and_single() {
    let mut none: Vec<Song> = Vec::new();
    assert_eq!(remove_duplicates(&mut none), 0);
    assert!(none.is_empty());
    let mut one = vec![track("1", "a", "x", "k")];
    assert_eq!(remove_duplicates(&mut one), 0);
    assert_eq!(one.len(), 1);
}

#[test]
fn remove_duplicates_all_the_same() {
    let mut arr = vec![
        track("1", "a", "x", "k"),
        track("2", "a", "x", "k"),
        track("3", "a", "x", "k"),
    ];
    assert_eq!(remove_duplicates(&mut arr), 2);
    assert_eq!(arr, vec![track("1", "a", "x", "k")]);
}

#[test]
fn rand_id_is_five_letters_or_digits() {
    for _ in 0..50 {
        let id = generate_rand_id();
        assert_eq!(id.chars().count(), ID_LENGTH);
        assert_eq!(ID_LENGTH, 5);
        assert!(id.chars().all(|c| c.is_ascii_alphanumeric()));
    }
}

#[test]
fn rand_ids_differ() {
    let first = generate_rand_id();
    let mut differs = false;
    for _ in 0..20 {
        if generate_rand_id() != first {
            differs = true;
        }
    }
    assert!(differs);
}

#[test]
fn into_track_copies_every_field() {
    let song = Song {
        uuid: "u".to_string(),
        title: "t".to_string(),
        artist: "a".to_string(),
        album: "al".to_string(),
        cover_art: "c".to_string(),
        preview_url: "p".to_string(),
    };
    let kept = song.into_track("data-7");
    assert_eq!(kept.uuid, "u");
    assert_eq!(kept.app_data_id, "data-7");
    assert_eq!(kept.title, "t");
    assert_eq!(kept.artist, "a");
    assert_eq!(kept.album, "al");
    assert_eq!(kept.cover_art, "c");
    assert_eq!(kept.preview_url, "p");
}
