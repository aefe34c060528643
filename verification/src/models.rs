//! The data the engine works on: filters, descriptors, resolved tracks, errors.

use vstd::prelude::*;
use vstd::string::*;
use crate::text::same_text;

verus! {

/// Why a request was given up. Each kind carries the message of the
/// collaborator that failed.
#[derive(Debug, PartialEq, Eq)]
pub enum AppError {
    /// The call to the generative backend itself failed.
    GenerationFailed(String),
    /// The backend answered with text that is not a list of descriptors.
    ParseFailed(String),
    /// The catalog search failed.
    SearchFailed(String),
}

impl Clone for AppError {
    fn clone(&self) -> (r: AppError)
        ensures
            r == *self,
    {
        match self {
            AppError::GenerationFailed(message) => AppError::GenerationFailed(message.clone()),
            AppError::ParseFailed(message) => AppError::ParseFailed(message.clone()),
            AppError::SearchFailed(message) => AppError::SearchFailed(message.clone()),
        }
    }
}

impl AppError {
    /// The message of the collaborator that failed, as a value.
    pub open spec fn message(self) -> Seq<char> {
        match self {
            AppError::GenerationFailed(message) => message@,
            AppError::ParseFailed(message) => message@,
            AppError::SearchFailed(message) => message@,
        }
    }

    /// The message of the collaborator that failed.
    pub fn into_message(self) -> (r: String)
        ensures
            r@ == self.message(),
    {
        match self {
            AppError::GenerationFailed(message) => message,
            AppError::ParseFailed(message) => message,
            AppError::SearchFailed(message) => message,
        }
    }
}

/// A batch of descriptors, as the generative backend is asked to shape it.
#[derive(Debug, Default, PartialEq)]
pub struct SearchResult {
    pub results: Vec<LLMResult>,
}

/// A candidate track as the generative backend describes it: any field may be
/// missing, and nothing says that the track exists.
#[derive(Debug, PartialEq, PartialOrd)]
pub struct LLMResult {
    pub artist: Option<String>,
    pub title: Option<String>,
    pub album: Option<String>,
    pub year: Option<u32>,
    pub genre: Option<String>,
}

/// A copy of an optional string.
fn clone_optional(s: &Option<String>) -> (r: Option<String>)
    ensures
        r == *s,
{
    match s {
        Some(text) => Some(text.clone()),
        None => None,
    }
}

impl Clone for LLMResult {
    fn clone(&self) -> (r: LLMResult)
        ensures
            r == *self,
    {
        LLMResult {
            artist: clone_optional(&self.artist),
            title: clone_optional(&self.title),
            album: clone_optional(&self.album),
            year: self.year,
            genre: clone_optional(&self.genre),
        }
    }
}

impl Clone for SearchResult {
    fn clone(&self) -> (r: SearchResult)
        ensures
            r.results@ == self.results@,
    {
        let mut results: Vec<LLMResult> = Vec::new();
        let mut i: usize = 0;
        while i < self.results.len()
            invariant
                i <= self.results@.len(),
                results@ == self.results@.take(i as int),
            decreases self.results@.len() - i,
        {
            results.push(self.results[i].clone());
            proof {
                assert(results@ =~= self.results@.take(i + 1));
            }
            i += 1;
        }
        proof {
            assert(self.results@.take(i as int) =~= self.results@);
        }
        SearchResult { results }
    }
}

/// A track as the catalog confirmed it. Two resolved tracks are the same track
/// when title and album agree, whatever their catalog ids.
#[derive(Debug, Hash, Default, PartialEq, Eq, PartialOrd)]
pub struct Song {
    pub uuid: String,
    pub title: String,
    pub artist: String,
    pub album: String,
    pub cover_art: String,
    pub preview_url: String,
}

/// A resolved track as the storage layer keeps it, tied to the record of the
/// application data it belongs to.
#[derive(Debug, PartialEq, Eq)]
pub struct Track {
    pub uuid: String,
    pub app_data_id: String,
    pub title: String,
    pub artist: String,
    pub album: String,
    pub cover_art: String,
    pub preview_url: String,
}

impl Clone for Song {
    fn clone(&self) -> (r: Song)
        ensures
            r == *self,
    {
        Song {
            uuid: self.uuid.clone(),
            title: self.title.clone(),
            artist: self.artist.clone(),
            album: self.album.clone(),
            cover_art: self.cover_art.clone(),
            preview_url: self.preview_url.clone(),
        }
    }
}

impl Song {
    /// What identifies a track when duplicates are looked for: title and album.
    pub open spec fn identity(self) -> (Seq<char>, Seq<char>) {
        (self.title@, self.album@)
    }

    /// Whether two tracks have the same title and album.
    pub fn same_identity(&self, other: &Song) -> (r: bool)
        ensures
            r == (self.identity() == other.identity()),
    {
        self.title == other.title && self.album == other.album
    }

    /// The storage record of this track under the application data `app_data_id`.
    pub fn into_track(&self, app_data_id: &str) -> (r: Track)
        ensures
            r.uuid == self.uuid,
            r.app_data_id@ == app_data_id@,
            r.title == self.title,
            r.artist == self.artist,
            r.album == self.album,
            r.cover_art == self.cover_art,
            r.preview_url == self.preview_url,
    {
        Track {
            uuid: self.uuid.clone(),
            app_data_id: app_data_id.to_owned(),
            title: self.title.clone(),
            artist: self.artist.clone(),
            album: self.album.clone(),
            cover_art: self.cover_art.clone(),
            preview_url: self.preview_url.clone(),
        }
    }
}

/// The era a request is filtered to.
#[derive(Debug, Clone, Copy, PartialEq, Eq, Structural)]
pub enum MusicEra {
    Any,
    Modern,
    Contemporary,
    Early2000,
    Mid2000,
    N90sEra,
    T80sEra,
    Oldies,
}

impl MusicEra {
    /// The one canonical display string of each variant.
    pub open spec fn label(self) -> Seq<char> {
        match self {
            MusicEra::Any => "Any"@,
            MusicEra::Modern => "Modern"@,
            MusicEra::Contemporary => "Contemporary"@,
            MusicEra::Early2000 => "Early 2000"@,
            MusicEra::Mid2000 => "Mid 2000"@,
            MusicEra::N90sEra => "90s Era"@,
            MusicEra::T80sEra => "80s Era"@,
            MusicEra::Oldies => "Oldies"@,
        }
    }

    /// The variant a text names, if it names one: the first variant, in
    /// declaration order, whose display string the text equals.
    pub open spec fn parse(s: Seq<char>) -> Option<MusicEra> {
        if s == MusicEra::Any.label() {
            Some(MusicEra::Any)
        } else if s == MusicEra::Modern.label() {
            Some(MusicEra::Modern)
        } else if s == MusicEra::Contemporary.label() {
            Some(MusicEra::Contemporary)
        } else if s == MusicEra::Early2000.label() {
            Some(MusicEra::Early2000)
        } else if s == MusicEra::Mid2000.label() {
            Some(MusicEra::Mid2000)
        } else if s == MusicEra::N90sEra.label() {
            Some(MusicEra::N90sEra)
        } else if s == MusicEra::T80sEra.label() {
            Some(MusicEra::T80sEra)
        } else if s == MusicEra::Oldies.label() {
            Some(MusicEra::Oldies)
        } else {
            None
        }
    }

    /// The display string, as a literal.
    pub fn as_str(&self) -> (r: &'static str)
        ensures
            r@ == self.label(),
    {
        match self {
            MusicEra::Any => "Any",
            MusicEra::Modern => "Modern",
            MusicEra::Contemporary => "Contemporary",
            MusicEra::Early2000 => "Early 2000",
            MusicEra::Mid2000 => "Mid 2000",
            MusicEra::N90sEra => "90s Era",
            MusicEra::T80sEra => "80s Era",
            MusicEra::Oldies => "Oldies",
        }
    }

    /// The display string, owned.
    pub fn to_string(&self) -> (r: String)
        ensures
            r@ == self.label(),
    {
        String::from_str(self.as_str())
    }

    /// Reads a display string back. Any other text is an error: there is no
    /// default variant.
    pub fn from_str(s: &str) -> (r: Result<MusicEra, ()>)
        ensures
            r == match MusicEra::parse(s@) {
                Some(era) => Ok::<MusicEra, ()>(era),
                None => Err::<MusicEra, ()>(()),
            },
    {
        if same_text(s, "Any") {
            Ok(MusicEra::Any)
        } else if same_text(s, "Modern") {
            Ok(MusicEra::Modern)
        } else if same_text(s, "Contemporary") {
            Ok(MusicEra::Contemporary)
        } else if same_text(s, "Early 2000") {
            Ok(MusicEra::Early2000)
        } else if same_text(s, "Mid 2000") {
            Ok(MusicEra::Mid2000)
        } else if same_text(s, "90s Era") {
            Ok(MusicEra::N90sEra)
        } else if same_text(s, "80s Era") {
            Ok(MusicEra::T80sEra)
        } else if same_text(s, "Oldies") {
            Ok(MusicEra::Oldies)
        } else {
            Err(())
        }
    }

    /// Every variant once, in declaration order.
    pub fn variants() -> (r: Vec<MusicEra>)
        ensures
            r@ == seq![
                MusicEra::Any,
                MusicEra::Modern,
                MusicEra::Contemporary,
                MusicEra::Early2000,
                MusicEra::Mid2000,
                MusicEra::N90sEra,
                MusicEra::T80sEra,
                MusicEra::Oldies,
            ],
    {
        let mut r: Vec<MusicEra> = Vec::new();
        r.push(MusicEra::Any);
        r.push(MusicEra::Modern);
        r.push(MusicEra::Contemporary);
        r.push(MusicEra::Early2000);
        r.push(MusicEra::Mid2000);
        r.push(MusicEra::N90sEra);
        r.push(MusicEra::T80sEra);
        r.push(MusicEra::Oldies);
        assert(r@ =~= seq![
            MusicEra::Any,
            MusicEra::Modern,
            MusicEra::Contemporary,
            MusicEra::Early2000,
            MusicEra::Mid2000,
            MusicEra::N90sEra,
            MusicEra::T80sEra,
            MusicEra::Oldies,
        ]);
        r
    }

    /// Display strings round-trip: parsing the display string of a variant
    /// gives that variant back, and a text parses to a variant only if it is
    /// that variant's display string.
    pub proof fn lemma_round_trip(era: MusicEra)
        ensures
            MusicEra::parse(era.label()) == Some(era),
            forall|s: Seq<char>| MusicEra::parse(s) == Some(era) <==> s == era.label(),
    {
        reveal_strlit("Any");
        reveal_strlit("Modern");
        reveal_strlit("Contemporary");
        reveal_strlit("Early 2000");
        reveal_strlit("Mid 2000");
        reveal_strlit("90s Era");
        reveal_strlit("80s Era");
        reveal_strlit("Oldies");
        assert("Any"@.len() == 3);
        assert("Modern"@.len() == 6 && "Modern"@[0] == 'M');
        assert("Contemporary"@.len() == 12);
        assert("Early 2000"@.len() == 10);
        assert("Mid 2000"@.len() == 8);
        assert("90s Era"@.len() == 7 && "90s Era"@[0] == '9');
        assert("80s Era"@.len() == 7 && "80s Era"@[0] == '8');
        assert("Oldies"@.len() == 6 && "Oldies"@[0] == 'O');
    }
}

/// The genre a request is filtered to.
#[derive(Debug, Clone, Copy, PartialEq, Eq, Structural)]
pub enum MusicGenre {
    Any,
    Afro,
    AfroBeats,
    HipHop,
    Alternative,
    Classical,
}

impl MusicGenre {
    /// The one canonical display string of each variant.
    pub open spec fn label(self) -> Seq<char> {
        match self {
            MusicGenre::Any => "Any"@,
            MusicGenre::Afro => "Afro"@,
            MusicGenre::AfroBeats => "AfroBeats"@,
            MusicGenre::HipHop => "HipHop"@,
            MusicGenre::Alternative => "Alternative"@,
            MusicGenre::Classical => "Classical"@,
        }
    }

    /// The variant a text names, if it names one: the first variant, in
    /// declaration order, whose display string the text equals.
    pub open spec fn parse(s: Seq<char>) -> Option<MusicGenre> {
        if s == MusicGenre::Any.label() {
            Some(MusicGenre::Any)
        } else if s == MusicGenre::Afro.label() {
            Some(MusicGenre::Afro)
        } else if s == MusicGenre::AfroBeats.label() {
            Some(MusicGenre::AfroBeats)
        } else if s == MusicGenre::HipHop.label() {
            Some(MusicGenre::HipHop)
        } else if s == MusicGenre::Alternative.label() {
            Some(MusicGenre::Alternative)
        } else if s == MusicGenre::Classical.label() {
            Some(MusicGenre::Classical)
        } else {
            None
        }
    }

    /// The display string, as a literal.
    pub fn as_str(&self) -> (r: &'static str)
        ensures
            r@ == self.label(),
    {
        match self {
            MusicGenre::Any => "Any",
            MusicGenre::Afro => "Afro",
            MusicGenre::AfroBeats => "AfroBeats",
            MusicGenre::HipHop => "HipHop",
            MusicGenre::Alternative => "Alternative",
            MusicGenre::Classical => "Classical",
        }
    }

    /// The display string, owned.
    pub fn to_string(&self) -> (r: String)
        ensures
            r@ == self.label(),
    {
        String::from_str(self.as_str())
    }

    /// Reads a display string back. Any other text is an error: there is no
    /// default variant.
    pub fn from_str(s: &str) -> (r: Result<MusicGenre, ()>)
        ensures
            r == match MusicGenre::parse(s@) {
                Some(genre) => Ok::<MusicGenre, ()>(genre),
                None => Err::<MusicGenre, ()>(()),
            },
    {
        if same_text(s, "Any") {
            Ok(MusicGenre::Any)
        } else if same_text(s, "Afro") {
            Ok(MusicGenre::Afro)
        } else if same_text(s, "AfroBeats") {
            Ok(MusicGenre::AfroBeats)
        } else if same_text(s, "HipHop") {
            Ok(MusicGenre::HipHop)
        } else if same_text(s, "Alternative") {
            Ok(MusicGenre::Alternative)
        } else if same_text(s, "Classical") {
            Ok(MusicGenre::Classical)
        } else {
            Err(())
        }
    }

    /// Every variant once, in declaration order.
    pub fn variants() -> (r: Vec<MusicGenre>)
        ensures
            r@ == seq![
                MusicGenre::Any,
                MusicGenre::Afro,
                MusicGenre::AfroBeats,
                MusicGenre::HipHop,
                MusicGenre::Alternative,
                MusicGenre::Classical,
            ],
    {
        let mut r: Vec<MusicGenre> = Vec::new();
        r.push(MusicGenre::Any);
        r.push(MusicGenre::Afro);
        r.push(MusicGenre::AfroBeats);
        r.push(MusicGenre::HipHop);
        r.push(MusicGenre::Alternative);
        r.push(MusicGenre::Classical);
        assert(r@ =~= seq![
            MusicGenre::Any,
            MusicGenre::Afro,
            MusicGenre::AfroBeats,
            MusicGenre::HipHop,
            MusicGenre::Alternative,
            MusicGenre::Classical,
        ]);
        r
    }

    /// Display strings round-trip: parsing the display string of a variant
    /// gives that variant back, and a text parses to a variant only if it is
    /// that variant's display string.
    pub proof fn lemma_round_trip(genre: MusicGenre)
        ensures
            MusicGenre::parse(genre.label()) == Some(genre),
            forall|s: Seq<char>| MusicGenre::parse(s) == Some(genre) <==> s == genre.label(),
    {
        reveal_strlit("Any");
        reveal_strlit("Afro");
        reveal_strlit("AfroBeats");
        reveal_strlit("HipHop");
        reveal_strlit("Alternative");
        reveal_strlit("Classical");
        assert("Any"@.len() == 3);
        assert("Afro"@.len() == 4);
        assert("AfroBeats"@.len() == 9 && "AfroBeats"@[0] == 'A');
        assert("HipHop"@.len() == 6);
        assert("Alternative"@.len() == 11);
        assert("Classical"@.len() == 9 && "Classical"@[0] == 'C');
    }
}

/// What an engine is set up with: the generative model to ask, the context it
/// is given, and how many tracks a request should bring.
pub struct Config<'a> {
    pub model: &'a str,
    pub context: String,
    pub track_count: u16,
}

impl<'a> Clone for Config<'a> {
    fn clone(&self) -> (r: Config<'a>)
        ensures
            r == *self,
    {
        Config { model: self.model, context: self.context.clone(), track_count: self.track_count }
    }
}

impl<'a> Config<'a> {
    pub fn build(model: &'a str, context: String, track_count: u16) -> (r: Config<'a>)
        ensures
            r.model == model,
            r.context == context,
            r.track_count == track_count,
    {
        Config { model, context, track_count }
    }
}

} // verus!
