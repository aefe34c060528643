use mood_tracks::models::{Config, MusicEra, MusicGenre};
use mood_tracks::preferences::App;
use mood_tracks::text::{same_text, to_decimal};

#[test]
fn era_display_strings() {
    assert_eq!(MusicEra::Any.to_string(), "Any");
    assert_eq!(MusicEra::Modern.to_string(), "Modern");
    assert_eq!(MusicEra::Contemporary.to_string(), "Contemporary");
    assert_eq!(MusicEra::Early2000.to_string(), "Early 2000");
    assert_eq!(MusicEra::Mid2000.to_string(), "Mid 2000");
    assert_eq!(MusicEra::N90sEra.to_string(), "90s Era");
    assert_eq!(MusicEra::T80sEra.to_string(), "80s Era");
    assert_eq!(MusicEra::Oldies.to_string(), "Oldies");
}

#[test]
fn genre_display_strings() {
    assert_eq!(MusicGenre::Any.to_string(), "Any");
    assert_eq!(MusicGenre::Afro.to_string(), "Afro");
    assert_eq!(MusicGenre::AfroBeats.to_string(), "AfroBeats");
    assert_eq!(MusicGenre::HipHop.to_string(), "HipHop");
    assert_eq!(MusicGenre::Alternative.to_string(), "Alternative");
    assert_eq!(MusicGenre::Classical.to_string(), "Classical");
}

#[test]
fn era_round_trip() {
    let all = MusicEra::variants();
    assert_eq!(all.len(), 8);
    for era in all {
        assert_eq!(MusicEra::from_str(&era.to_string()), Ok(era));
        assert_eq!(MusicEra::from_str(era.as_str()), Ok(era));
    }
}

#[test]
fn genre_round_trip() {
    let all = MusicGenre::variants();
    assert_eq!(all.len(), 6);
    for genre in all {
        assert_eq!(MusicGenre::from_str(&genre.to_string()), Ok(genre));
        assert_eq!(MusicGenre::from_str(genre.as_str()), Ok(genre));
    }
}

#[test]
fn era_rejects_other_text() {
    assert_eq!(MusicEra::from_str(""), Err(()));
    assert_eq!(MusicEra::from_str("any"), Err(()));
    assert_eq!(MusicEra::from_str("Any "), Err(()));
    assert_eq!(MusicEra::from_str("Early2000"), Err(()));
    assert_eq!(MusicEra::from_str("70s Era"), Err(()));
    assert_eq!(MusicEra::from_str("Afro"), Err(()));
}

#[test]
fn genre_rejects_other_text() {
    assert_eq!(MusicGenre::from_str(""), Err(()));
    assert_eq!(MusicGenre::from_str("afro"), Err(()));
    assert_eq!(MusicGenre::from_str("Afro Beats"), Err(()));
    assert_eq!(MusicGenre::from_str("Hip Hop"), Err(()));
    assert_eq!(MusicGenre::from_str("Modern"), Err(()));
}

#[test]
fn variants_come_in_declaration_order() {
    assert_eq!(
        MusicEra::variants(),
        vec![
            MusicEra::Any,
            MusicEra::Modern,
            MusicEra::Contemporary,
            MusicEra::Early2000,
            MusicEra::Mid2000,
            MusicEra::N90sEra,
            MusicEra::T80sEra,
            MusicEra::Oldies,
        ]
    );
    assert_eq!(
        MusicGenre::variants(),
        vec![
            MusicGenre::Any,
            MusicGenre::Afro,
            MusicGenre::AfroBeats,
            MusicGenre::HipHop,
            MusicGenre::Alternative,
            MusicGenre::Classical,
        ]
    );
}

#[test]
fn decimal_numerals() {
    assert_eq!(to_decimal(0), "0");
    assert_eq!(to_decimal(7), "7");
    assert_eq!(to_decimal(10), "10");
    assert_eq!(to_decimal(109), "109");
    assert_eq!(to_decimal(2018), "2018");
    assert_eq!(to_decimal(65535), "65535");
    assert_eq!(to_decimal(4294967295), "4294967295");
    assert_eq!(to_decimal(u64::MAX), "18446744073709551615");
    assert_eq!(to_decimal(1234567890), 1234567890u64.to_string());
}

#[test]
fn same_text_compares_characters() {
    assert!(same_text("", ""));
    assert!(same_text("abc", "abc"));
    assert!(!same_text("abc", "abd"));
    assert!(!same_text("abc", "ab"));
    assert!(!same_text("Abc", "abc"));
}

#[test]
fn config_build_keeps_its_arguments() {
    let config = Config::build("gemini-2.0-flash", "context".to_string(), 12);
    assert_eq!(config.model, "gemini-2.0-flash");
    assert_eq!(config.context, "context");
    assert_eq!(config.track_count, 12);
}

#[test]
fn preferences_default() {
    let app = App::default();
    assert_eq!(app.username(), "default-user");
    assert_eq!(app.music_genre(), MusicGenre::Any);
    assert_eq!(app.music_era(), MusicEra::Any);
}

#[test]
fn preferences_restore_fills_what_is_missing() {
    let nothing = App::restore(None, None, None);
    assert_eq!(nothing, App::default());

    let named = App::restore(Some("tor".to_string()), None, None);
    assert_eq!(named.username(), "tor");
    assert_eq!(named.music_genre(), MusicGenre::Any);
    assert_eq!(named.music_era(), MusicEra::Any);

    let filtered = App::restore(None, Some(MusicGenre::HipHop), Some(MusicEra::N90sEra));
    assert_eq!(filtered.username(), "default-user");
    assert_eq!(filtered.music_genre(), MusicGenre::HipHop);
    assert_eq!(filtered.music_era(), MusicEra::N90sEra);

    let full = App::restore(
        Some("v".to_string()),
        Some(MusicGenre::Classical),
        Some(MusicEra::Oldies),
    );
    assert_eq!(full.username(), "v");
    assert_eq!(full.music_genre(), MusicGenre::Classical);
    assert_eq!(full.music_era(), MusicEra::Oldies);
}
