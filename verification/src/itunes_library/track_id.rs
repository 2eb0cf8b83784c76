use crate::text::parse_bounded;
use crate::text::parse_u64;
use vstd::prelude::*;

verus! {

/// Identifies a track within one iTunes library.
#[derive(Clone, Copy, Debug, Eq, Hash, PartialEq, Structural)]
pub struct TrackId(pub u64);

impl TrackId {
    /// The identifier with the given number, if the number fits in 64 bits
    /// and is not negative.
    pub fn from_integer(v: i128) -> (id: Option<TrackId>)
        ensures
            id == if 0 <= v <= u64::MAX {
                Some(TrackId(v as u64))
            } else {
                None
            },
    {
        if 0 <= v && v <= u64::MAX as i128 {
            Some(TrackId(v as u64))
        } else {
            None
        }
    }

    /// The identifier written in `s` as a decimal number, if `s` is one that
    /// fits in 64 bits.
    pub fn parse(s: &str) -> (id: Option<TrackId>)
        ensures
            match id {
                Some(id) => parse_bounded(s@, u64::MAX as nat) == Some(id.0 as nat),
                None => parse_bounded(s@, u64::MAX as nat) is None,
            },
    {
        match parse_u64(s) {
            Some(v) => Some(TrackId(v)),
            None => None,
        }
    }
}

} // verus!
