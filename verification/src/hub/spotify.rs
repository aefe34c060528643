//! The catalog search against Spotify, as far as it computes: the query sent
//! for a descriptor, and the track made of what the catalog answers.

use vstd::prelude::*;
use vstd::string::*;
use crate::models::{LLMResult, Song};
use crate::text::{decimal, to_decimal};

verus! {

/// What the catalog tells of one track, as far as a resolved track is made of
/// it: the catalog's id if it has one, the track's name, the names of its
/// artists, the album's name and the addresses of the album's cover images.
#[derive(Debug, PartialEq, Eq)]
pub struct CatalogTrack {
    pub id: Option<String>,
    pub name: String,
    pub artists: Vec<String>,
    pub album: String,
    pub images: Vec<String>,
}

/// The text of an optional string: empty where there is none.
pub open spec fn text_or_empty(s: Option<String>) -> Seq<char> {
    match s {
        Some(t) => t@,
        None => Seq::empty(),
    }
}

/// The year of a descriptor: zero where it names none.
pub open spec fn year_or_zero(year: Option<u32>) -> nat {
    match year {
        Some(y) => y as nat,
        None => 0,
    }
}

/// The query for one descriptor: its title, artist and year, each under its
/// keyword; a missing title or artist is left empty, a missing year is 0.
pub open spec fn query_text(item: LLMResult) -> Seq<char> {
    "track:"@ + text_or_empty(item.title) + " artist:"@ + text_or_empty(item.artist) + " year:"@
        + decimal(year_or_zero(item.year))
}

/// Composes the query that looks one descriptor up in the catalog.
pub fn search_query(item: &LLMResult) -> (r: String)
    ensures
        r@ == query_text(*item),
{
    let mut r = String::from_str("track:");
    match &item.title {
        Some(title) => {
            r.append(title.as_str());
        },
        None => {},
    }
    r.append(" artist:");
    match &item.artist {
        Some(artist) => {
            r.append(artist.as_str());
        },
        None => {},
    }
    r.append(" year:");
    let year: u32 = match item.year {
        Some(y) => y,
        None => 0,
    };
    let digits = to_decimal(year as u64);
    r.append(digits.as_str());
    proof {
        assert(r@ =~= query_text(*item));
    }
    r
}

impl CatalogTrack {
    /// The catalog told all that a resolved track needs: an id, at least one
    /// artist and at least one cover image.
    pub open spec fn complete(&self) -> bool {
        &&& self.id is Some
        &&& self.artists@.len() > 0
        &&& self.images@.len() > 0
    }

    /// `song` is the resolved track made of this catalog track: the catalog's
    /// id, the track's name, its first artist, the album, the album's first
    /// cover image, and no preview address.
    pub open spec fn resolves_to(&self, song: Song) -> bool {
        &&& self.complete()
        &&& song.uuid@ == self.id->0@
        &&& song.title@ == self.name@
        &&& song.artist@ == self.artists@[0]@
        &&& song.album@ == self.album@
        &&& song.cover_art@ == self.images@[0]@
        &&& song.preview_url@ == Seq::<char>::empty()
    }

    /// Whether a resolved track can be made of this catalog track.
    pub fn is_complete(&self) -> (r: bool)
        ensures
            r == self.complete(),
    {
        self.id.is_some() && self.artists.len() > 0 && self.images.len() > 0
    }

    /// The resolved track made of this catalog track.
    pub fn to_song(&self) -> (song: Song)
        requires
            self.complete(),
        ensures
            self.resolves_to(song),
    {
        let uuid = match &self.id {
            Some(id) => id.clone(),
            None => String::new(),
        };
        Song {
            uuid,
            title: self.name.clone(),
            artist: self.artists[0].clone(),
            album: self.album.clone(),
            cover_art: self.images[0].clone(),
            preview_url: String::new(),
        }
    }
}

/// The one track that a lookup contributes: the first that the catalog
/// returned, or none where it returned nothing.
pub fn best_match(items: &Vec<CatalogTrack>) -> (r: Option<Song>)
    requires
        items@.len() > 0 ==> items@[0].complete(),
    ensures
        items@.len() == 0 ==> r is None,
        items@.len() > 0 ==> r is Some && items@[0].resolves_to(r->0),
{
    if items.len() == 0 {
        None
    } else {
        Some(items[0].to_song())
    }
}

} // verus!
