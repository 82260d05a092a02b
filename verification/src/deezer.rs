//! The song catalogue's data model: tracks, artists, albums and genres as the
//! public Deezer API describes them.

use vstd::prelude::*;

verus! {

/// A performing artist.
#[derive(Debug)]
pub struct Artist {
    pub id: i64,
    pub name: String,
}

/// The album a track belongs to.
#[derive(Debug)]
pub struct Album {
    pub id: i64,
    pub title: String,
}

/// One song of the catalogue.
#[derive(Debug)]
pub struct Track {
    pub id: i64,
    pub title: String,
    /// 30s preview MP3 URL; empty when Deezer has none.
    pub preview: String,
    pub artist: Artist,
    pub album: Option<Album>,
}

/// A Deezer genre.
#[derive(Debug)]
pub struct Genre {
    pub id: i64,
    pub name: String,
}

impl Clone for Artist {
    fn clone(&self) -> (r: Self)
        ensures
            r == *self,
    {
        Artist { id: self.id, name: self.name.clone() }
    }
}

impl Clone for Album {
    fn clone(&self) -> (r: Self)
        ensures
            r == *self,
    {
        Album { id: self.id, title: self.title.clone() }
    }
}

impl Clone for Track {
    fn clone(&self) -> (r: Self)
        ensures
            r == *self,
    {
        let album = match &self.album {
            Some(a) => Some(a.clone()),
            None => None,
        };
        Track {
            id: self.id,
            title: self.title.clone(),
            preview: self.preview.clone(),
            artist: self.artist.clone(),
            album,
        }
    }
}

impl Clone for Genre {
    fn clone(&self) -> (r: Self)
        ensures
            r == *self,
    {
        Genre { id: self.id, name: self.name.clone() }
    }
}

/// "Title — Artist", as the autocomplete list and the reveal show a track.
pub open spec fn display_text(t: Track) -> Seq<char> {
    t.title@ + " — "@ + t.artist.name@
}

/// The album title, when there is an album with a non-empty title.
pub open spec fn album_title_of(t: Track) -> Option<Seq<char>> {
    match t.album {
        Some(a) => if a.title@.len() > 0 {
            Some(a.title@)
        } else {
            None
        },
        None => None,
    }
}

impl Track {
    /// Whether Deezer offers a preview clip for this track.
    pub fn has_preview(&self) -> (r: bool)
        ensures
            r == (self.preview@.len() > 0),
    {
        !self.preview.as_str().is_empty()
    }

    /// The artist's name.
    pub fn artist_name(&self) -> (r: &str)
        ensures
            r@ == self.artist.name@,
    {
        self.artist.name.as_str()
    }

    /// The album title, if the track has an album with a non-empty title.
    pub fn album_title(&self) -> (r: Option<&str>)
        ensures
            match r {
                Some(s) => album_title_of(*self) == Some(s@),
                None => album_title_of(*self) is None,
            },
    {
        match &self.album {
            Some(a) => {
                if a.title.as_str().is_empty() {
                    None
                } else {
                    Some(a.title.as_str())
                }
            },
            None => None,
        }
    }

    /// "Title — Artist".
    pub fn display(&self) -> (r: String)
        ensures
            r@ == display_text(*self),
    {
        let mut s = self.title.clone();
        s.append(" — ");
        s.append(self.artist.name.as_str());
        s
    }
}

} // verus!
