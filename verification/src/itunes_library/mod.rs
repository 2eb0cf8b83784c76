//! The records of an iTunes library: its tracks and its playlists.

use serde::de::IgnoredAny;
use vstd::prelude::*;

pub mod track_id;

pub use track_id::TrackId;

verus! {

/// `serde::de::IgnoredAny`, which stands for a value that was read and
/// thrown away. Only its presence is looked at.
#[verifier::external_type_specification]
#[verifier::external_body]
pub struct ExIgnoredAny(IgnoredAny);

/// An iTunes library. No track of it is looked up by its identifier, so the
/// tracks are kept as a list.
#[derive(Debug)]
pub struct ItunesLibrary {
    pub tracks: Vec<Track>,
    pub playlists: Vec<Playlist>,
}

/// One track of the library. Dates are in seconds since the Unix epoch.
#[derive(Debug)]
pub struct Track {
    pub id: TrackId,
    pub name: String,
    pub artist: Option<String>,
    pub album: Option<String>,
    pub genre: Option<String>,
    pub disc_number: Option<usize>,
    pub track_number: Option<usize>,
    pub year: Option<u16>,
    pub date_modified: i64,
    pub date_added: i64,
    pub play_count: Option<usize>,
    pub play_date: Option<i64>,
    pub skip_count: Option<usize>,
    pub skip_date: Option<i64>,
    pub rating: Option<u8>,
    pub movie: bool,
    pub location: String,
}

/// A playlist. One with `smart_info` is defined by rules, not by its items.
#[derive(Debug)]
pub struct Playlist {
    pub name: String,
    pub id: u32,
    pub smart_info: Option<IgnoredAny>,
    pub items: Vec<PlaylistItem>,
}

/// A reference from a playlist to a track.
#[derive(Debug)]
pub struct PlaylistItem {
    pub id: TrackId,
}

impl ItunesLibrary {
    /// Removes the movies from the library, keeping the other tracks in
    /// their order.
    pub fn strip_movies(&mut self)
        ensures
            final(self).tracks@ == old(self).tracks@.filter(|t: Track| !t.movie),
            final(self).playlists == old(self).playlists,
    {
        let ghost before = self.tracks@;
        let ghost music = |t: Track| !t.movie;
        let mut i: usize = 0;
        let ghost mut seen: int = 0;
        assert(before.take(0).filter(music) =~= Seq::<Track>::empty()) by {
            reveal(Seq::filter);
        }
        while i < self.tracks.len()
            invariant
                0 <= i <= self.tracks.len(),
                0 <= seen <= before.len(),
                self.tracks.len() - i == before.len() - seen,
                self.tracks@.take(i as int) == before.take(seen).filter(music),
                self.tracks@.skip(i as int) == before.skip(seen),
                self.playlists == old(self).playlists,
                music == |t: Track| !t.movie,
            decreases self.tracks.len() - i,
        {
            let ghost now = self.tracks@;
            assert(now[i as int] == now.skip(i as int)[0]);
            assert(now[i as int] == before[seen]);
            assert(before.take(seen + 1).drop_last() =~= before.take(seen));
            assert(before.take(seen + 1).filter(music) == if music(before[seen]) {
                before.take(seen).filter(music).push(before[seen])
            } else {
                before.take(seen).filter(music)
            }) by {
                reveal(Seq::filter);
            }
            if self.tracks[i].movie {
                self.tracks.remove(i);
                assert(self.tracks@.take(i as int) =~= now.take(i as int));
                assert(self.tracks@.skip(i as int) =~= now.skip(i as int).skip(1));
                assert(before.skip(seen).skip(1) =~= before.skip(seen + 1));
            } else {
                assert(now.take(i + 1) =~= now.take(i as int).push(now[i as int]));
                assert(now.skip(i + 1) =~= now.skip(i as int).skip(1));
                assert(before.skip(seen).skip(1) =~= before.skip(seen + 1));
                i += 1;
            }
            proof {
                seen = seen + 1;
            }
        }
        assert(self.tracks@.take(i as int) =~= self.tracks@);
        assert(before.take(seen) =~= before);
    }
}

} // verus!
