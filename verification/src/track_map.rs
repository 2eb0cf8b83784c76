//! The tracks of the library, found by their keys.

use crate::itunes_library::Track;
use crate::report::Error;
use crate::search::first_index;
use crate::search::is_first;
use crate::search::lemma_first_index;
use crate::track_key::track_key;
use crate::track_key::KeyView;
use crate::track_key::TrackKey;
use vstd::prelude::*;

verus! {

/// Whether no two of `tracks` have the same key.
pub open spec fn distinct_keys(tracks: Seq<Track>) -> bool {
    forall|i: int, j: int|
        0 <= i < j < tracks.len() ==> track_key(#[trigger] tracks[i]) != track_key(
            #[trigger] tracks[j],
        )
}

/// The index of the first of `tracks` whose key is `key`.
pub open spec fn lookup(tracks: Seq<Track>, key: KeyView) -> Option<int> {
    first_index(tracks, |t: Track| track_key(t) == key)
}

/// Among tracks with distinct keys, a track is the one found by its key.
pub proof fn lemma_lookup_unique(tracks: Seq<Track>, i: int)
    requires
        distinct_keys(tracks),
        0 <= i < tracks.len(),
    ensures
        lookup(tracks, track_key(tracks[i])) == Some(i),
{
    lemma_first_index(tracks, |t: Track| track_key(t) == track_key(tracks[i]));
}

/// Tracks to be found by their keys. No two of them have the same key.
pub struct TrackMap<'a> {
    tracks: &'a Vec<Track>,
}

impl<'a> View for TrackMap<'a> {
    type V = Seq<Track>;

    closed spec fn view(&self) -> Seq<Track> {
        self.tracks@
    }
}

impl<'a> TrackMap<'a> {
    #[verifier::type_invariant]
    spec fn keys_are_distinct(self) -> bool {
        distinct_keys(self.tracks@)
    }

    /// The given tracks, to be found by their keys: an error if two of them
    /// have the same key, whatever else they hold.
    pub fn new(tracks: &'a Vec<Track>) -> (r: Result<TrackMap<'a>, Error>)
        ensures
            match r {
                Ok(map) => distinct_keys(tracks@) && map@ == tracks@,
                Err(e) => !distinct_keys(tracks@) && e == Error::DuplicateSong,
            },
    {
        let n = tracks.len();
        let mut j: usize = 0;
        while j < n
            invariant
                j <= n,
                n == tracks@.len(),
                forall|a: int, b: int|
                    0 <= a < b < j ==> track_key(#[trigger] tracks@[a]) != track_key(
                        #[trigger] tracks@[b],
                    ),
            decreases n - j,
        {
            let key = TrackKey::from(&tracks[j]);
            let mut i: usize = 0;
            while i < j
                invariant
                    i <= j < n,
                    n == tracks@.len(),
                    key@ == track_key(tracks@[j as int]),
                    forall|a: int| 0 <= a < i ==> track_key(#[trigger] tracks@[a]) != key@,
                decreases j - i,
            {
                if TrackKey::from(&tracks[i]) == key {
                    return Err(Error::DuplicateSong);
                }
                i += 1;
            }
            j += 1;
        }
        Ok(TrackMap { tracks })
    }

    /// How many tracks there are.
    pub fn len(&self) -> (n: usize)
        ensures
            n == self@.len(),
    {
        self.tracks.len()
    }

    /// The track at index `i`.
    pub fn track(&self, i: usize) -> (track: &'a Track)
        requires
            i < self@.len(),
        ensures
            *track == self@[i as int],
    {
        &self.tracks[i]
    }

    /// The index of the track whose key is `key`, if there is one. No other
    /// track has that key.
    pub fn position(&self, key: &TrackKey<'_>) -> (found: Option<usize>)
        ensures
            match found {
                Some(i) => i < self@.len() && track_key(self@[i as int]) == key@ && lookup(
                    self@,
                    key@,
                ) == Some(i as int),
                None => lookup(self@, key@) is None,
            },
            forall|j: int|
                0 <= j < self@.len() && track_key(#[trigger] self@[j]) == key@ ==> found == Some(
                    j as usize,
                ),
    {
        proof {
            use_type_invariant(self);
        }
        let n = self.tracks.len();
        let mut i: usize = 0;
        while i < n
            invariant
                i <= n,
                n == self.tracks@.len(),
                distinct_keys(self.tracks@),
                forall|a: int| 0 <= a < i ==> track_key(#[trigger] self.tracks@[a]) != key@,
            decreases n - i,
        {
            if TrackKey::from(&self.tracks[i]) == *key {
                proof {
                    lemma_first_index(self@, |t: Track| track_key(t) == key@);
                    assert(is_first(self@, |t: Track| track_key(t) == key@, i as int));
                }
                return Some(i);
            }
            i += 1;
        }
        proof {
            lemma_first_index(self@, |t: Track| track_key(t) == key@);
        }
        None
    }
}

} // verus!
