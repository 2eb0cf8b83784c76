//! The key by which a track of the library and an entry of the database are
//! recognised as the same song.

use crate::itunes_library::Track;
use crate::text::str_eq;
use vstd::prelude::*;
use vstd::string::StringExecFns;

verus! {

/// What a [`TrackKey`] holds, as plain values.
pub ghost struct KeyView {
    pub name: Seq<char>,
    pub artist: Option<Seq<char>>,
    pub album: Option<Seq<char>>,
    pub disc_number: Option<usize>,
    pub track_number: Option<usize>,
}

/// The key of a song: its name, artist, album, disc number and track number.
/// A part that is absent differs from every part that is present.
#[derive(Clone, Copy, Eq, Hash)]
pub struct TrackKey<'a> {
    pub name: &'a str,
    pub artist: Option<&'a str>,
    pub album: Option<&'a str>,
    pub disc_number: Option<usize>,
    pub track_number: Option<usize>,
}

impl<'a> View for TrackKey<'a> {
    type V = KeyView;

    open spec fn view(&self) -> KeyView {
        KeyView {
            name: self.name@,
            artist: match self.artist {
                Some(s) => Some(s@),
                None => None,
            },
            album: match self.album {
                Some(s) => Some(s@),
                None => None,
            },
            disc_number: self.disc_number,
            track_number: self.track_number,
        }
    }
}

/// The key of a track of the library.
pub open spec fn track_key(track: Track) -> KeyView {
    KeyView {
        name: track.name@,
        artist: match track.artist {
            Some(s) => Some(s@),
            None => None,
        },
        album: match track.album {
            Some(s) => Some(s@),
            None => None,
        },
        disc_number: track.disc_number,
        track_number: track.track_number,
    }
}

/// How a key is shown to a reader: name, artist and album, with nothing in
/// the place of an absent artist or album.
pub open spec fn key_text(key: KeyView) -> Seq<char> {
    key.name + " / "@ + (match key.artist {
        Some(s) => s,
        None => Seq::empty(),
    }) + " / "@ + (match key.album {
        Some(s) => s,
        None => Seq::empty(),
    })
}

fn opt_str_eq(a: Option<&str>, b: Option<&str>) -> (same: bool)
    ensures
        same == (match (a, b) {
            (Some(x), Some(y)) => x@ == y@,
            (None, None) => true,
            _ => false,
        }),
{
    match (a, b) {
        (Some(x), Some(y)) => str_eq(x, y),
        (None, None) => true,
        _ => false,
    }
}

fn opt_str<'a>(s: &'a Option<String>) -> (r: Option<&'a str>)
    ensures
        match (*s, r) {
            (Some(x), Some(y)) => x@ == y@,
            (None, None) => true,
            _ => false,
        },
{
    match s {
        Some(x) => Some(x.as_str()),
        None => None,
    }
}

impl<'a> PartialEq for TrackKey<'a> {
    /// Whether two keys are the same in every part.
    fn eq(&self, other: &Self) -> (same: bool) {
        str_eq(self.name, other.name) && opt_str_eq(self.artist, other.artist) && opt_str_eq(
            self.album,
            other.album,
        ) && self.disc_number == other.disc_number && self.track_number == other.track_number
    }
}

impl<'a> vstd::std_specs::cmp::PartialEqSpecImpl for TrackKey<'a> {
    open spec fn obeys_eq_spec() -> bool {
        true
    }

    open spec fn eq_spec(&self, other: &Self) -> bool {
        self@ == other@
    }
}

// What `from` returns is stated on `from` itself, over the key's view: a key
// borrows its texts from the track, and a specification cannot write down a
// borrowed text.
impl<'a> vstd::std_specs::convert::FromSpecImpl<&'a Track> for TrackKey<'a> {
    open spec fn obeys_from_spec() -> bool {
        false
    }

    open spec fn from_spec(track: &'a Track) -> Self {
        arbitrary()
    }
}

impl<'a> From<&'a Track> for TrackKey<'a> {
    /// The key of a track of the library.
    fn from(track: &'a Track) -> (key: TrackKey<'a>)
        ensures
            key@ == track_key(*track),
    {
        TrackKey {
            name: track.name.as_str(),
            artist: opt_str(&track.artist),
            album: opt_str(&track.album),
            disc_number: track.disc_number,
            track_number: track.track_number,
        }
    }
}

impl<'a> TrackKey<'a> {
    /// The key as it is shown to a reader.
    pub fn to_string(&self) -> (s: String)
        ensures
            s@ == key_text(self@),
    {
        let mut s = String::from_str(self.name);
        s.append(" / ");
        match self.artist {
            Some(artist) => s.append(artist),
            None => {},
        }
        s.append(" / ");
        match self.album {
            Some(album) => s.append(album),
            None => {},
        }
        assert(s@ =~= key_text(self@));
        s
    }
}

} // verus!
