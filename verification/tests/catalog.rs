use mood_tracks::hub::spotify::{best_match, search_query, CatalogTrack};
use mood_tracks::models::LLMResult;

fn hit(id: Option<&str>, name: &str, artists: &[&str], album: &str, images: &[&str]) -> CatalogTrack {
    CatalogTrack {
        id: id.map(|s| s.to_string()),
        name: name.to_string(),
        artists: artists.iter().map(|s| s.to_string()).collect(),
        album: album.to_string(),
        images: images.iter().map(|s| s.to_string()).collect(),
    }
}

#[test]
fn query_of_a_full_descriptor() {
    let item = LLMResult {
        artist: Some("Sasha Alex Sloan".to_string()),
        title: Some("Older".to_string()),
        album: Some("Single".to_string()),
        year: Some(2018),
        genre: Some("Pop".to_string()),
    };
    assert_eq!(search_query(&item), "track:Older artist:Sasha Alex Sloan year:2018");
}

#[test]
fn query_of_an_empty_descriptor() {
    let item = LLMResult { artist: None, title: None, album: None, year: None, genre: None };
    assert_eq!(search_query(&item), "track: artist: year:0");
}

#[test]
fn query_leaves_album_and_genre_out() {
    let item = LLMResult {
        artist: None,
        title: Some("Water No Get Enemy".to_string()),
        album: Some("Expensive Shit".to_string()),
        year: Some(1975),
        genre: Some("Afro".to_string()),
    };
    assert_eq!(search_query(&item), "track:Water No Get Enemy artist: year:1975");
    let late = LLMResult {
        artist: Some("x".to_string()),
        title: None,
        album: None,
        year: Some(u32::MAX),
        genre: None,
    };
    assert_eq!(search_query(&late), "track: artist:x year:4294967295");
}

#[test]
fn catalog_track_completeness() {
    assert!(hit(Some("id"), "n", &["a"], "al", &["i"]).is_complete());
    assert!(!hit(None, "n", &["a"], "al", &["i"]).is_complete());
    assert!(!hit(Some("id"), "n", &[], "al", &["i"]).is_complete());
    assert!(!hit(Some("id"), "n", &["a"], "al", &[]).is_complete());
}

#[test]
fn song_of_a_catalog_track() {
    let found = hit(
        Some("spotify:track:4"),
        "Older",
        &["Sasha Alex Sloan", "Someone Else"],
        "Loser",
        &["https://img/large", "https://img/small"],
    );
    let song = found.to_song();
    assert_eq!(song.uuid, "spotify:track:4");
    assert_eq!(song.title, "Older");
    assert_eq!(song.artist, "Sasha Alex Sloan");
    assert_eq!(song.album, "Loser");
    assert_eq!(song.cover_art, "https://img/large");
    assert_eq!(song.preview_url, "");
}

#[test]
fn best_match_is_the_first_or_none() {
    assert_eq!(best_match(&Vec::new()), None);
    let items = vec![
        hit(Some("1"), "first", &["a"], "al", &["i"]),
        hit(Some("2"), "second", &["b"], "bl", &["j"]),
    ];
    let song = best_match(&items).unwrap();
    assert_eq!(song.uuid, "1");
    assert_eq!(song.title, "first");
    assert_eq!(song.preview_url, "");
}
