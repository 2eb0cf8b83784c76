//! Carries play counts, play dates, first-added dates and static playlists
//! from an iTunes library over to an existing Rhythmbox database, leaving
//! everything else in that database as it was.
//!
//! A song of the database and a track of the library have no identifier in
//! common. They are the same song where they agree in name, artist, album,
//! disc number and track number ([`track_key`]). [`track_map`] finds a track
//! by that key and refuses a library in which two tracks share one.
//! [`database`] goes through the database and brings each song up to date
//! with its track; [`playlists`] adds the playlists of the library, by the
//! locations that the run over the database found. Both work on the XML
//! tree of the `elementtree` crate, which [`xml`] describes to the verifier.
//! Reading and writing the files is left to the caller.

pub mod database;
pub mod itunes_library;
pub mod merge_proofs;
pub mod playlists;
pub mod report;
pub mod search;
pub mod text;
pub mod track_key;
pub mod track_map;
pub mod xml;
