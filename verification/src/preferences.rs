//! What the presentation shell keeps from one session to the next.

use vstd::prelude::*;
use vstd::string::*;
use crate::models::{MusicEra, MusicGenre};

verus! {

/// The kept preferences, as a value.
pub struct Preferences {
    pub username: Seq<char>,
    pub music_genre: MusicGenre,
    pub music_era: MusicEra,
}

/// The preferences of a user who has kept none: a placeholder name and no
/// filter on genre or era.
pub open spec fn default_preferences() -> Preferences {
    Preferences {
        username: "default-user"@,
        music_genre: MusicGenre::Any,
        music_era: MusicEra::Any,
    }
}

/// The state of the shell that is kept across sessions: who uses it and the
/// filters last chosen.
#[derive(Debug, PartialEq, Eq)]
pub struct App {
    username: String,
    music_genre: MusicGenre,
    music_era: MusicEra,
}

impl View for App {
    type V = Preferences;

    closed spec fn view(&self) -> Preferences {
        Preferences {
            username: self.username@,
            music_genre: self.music_genre,
            music_era: self.music_era,
        }
    }
}

impl Clone for App {
    fn clone(&self) -> (r: App)
        ensures
            r == *self,
    {
        App {
            username: self.username.clone(),
            music_genre: self.music_genre,
            music_era: self.music_era,
        }
    }
}

impl Default for App {
    fn default() -> (r: App)
        ensures
            r@ == default_preferences(),
    {
        App {
            username: String::from_str("default-user"),
            music_genre: MusicGenre::Any,
            music_era: MusicEra::Any,
        }
    }
}

impl App {
    /// The state made of what was kept: each part that is missing takes its
    /// default, so that state kept by an earlier version still loads.
    pub fn restore(
        username: Option<String>,
        music_genre: Option<MusicGenre>,
        music_era: Option<MusicEra>,
    ) -> (r: App)
        ensures
            r@.username == match username {
                Some(name) => name@,
                None => default_preferences().username,
            },
            r@.music_genre == match music_genre {
                Some(genre) => genre,
                None => default_preferences().music_genre,
            },
            r@.music_era == match music_era {
                Some(era) => era,
                None => default_preferences().music_era,
            },
    {
        App {
            username: match username {
                Some(name) => name,
                None => String::from_str("default-user"),
            },
            music_genre: match music_genre {
                Some(genre) => genre,
                None => MusicGenre::Any,
            },
            music_era: match music_era {
                Some(era) => era,
                None => MusicEra::Any,
            },
        }
    }

    pub fn username(&self) -> (r: &str)
        ensures
            r@ == self@.username,
    {
        self.username.as_str()
    }

    pub fn music_genre(&self) -> (r: MusicGenre)
        ensures
            r == self@.music_genre,
    {
        self.music_genre
    }

    pub fn music_era(&self) -> (r: MusicEra)
        ensures
            r == self@.music_era,
    {
        self.music_era
    }
}

} // verus!
