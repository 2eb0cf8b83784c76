//! What a run reports: the errors that end it and the warnings that do not.

use crate::text::decimal_nat;
use crate::text::u64_to_string;
use vstd::prelude::*;
use vstd::string::StringExecFns;

verus! {

/// Why a run was given up.
#[derive(Clone, Copy, Debug, PartialEq, Eq, Structural)]
pub enum Error {
    /// Two tracks of the library have the same key.
    DuplicateSong,
    /// The root of the database is not `rhythmdb`.
    UnknownDatabaseFormat,
    /// The database is not of version 2.0.
    UnknownDatabaseVersion,
    /// The database holds something other than entries.
    UnknownEntryElement,
    /// A song of the database has no title.
    SongWithoutName,
    /// A song of the database has no location.
    SongWithoutLocation,
    /// The disc number of a song of the database is not a number.
    InvalidDiscNumber,
    /// The track number of a song of the database is not a number.
    InvalidTrackNumber,
    /// The root of the playlists is not `rhythmdb-playlists`.
    UnknownPlaylistsFormat,
    /// The playlists hold no playlist after which to add one.
    NoPlaylists,
}

/// The words in which an error is reported.
pub open spec fn error_text(e: Error) -> Seq<char> {
    match e {
        Error::DuplicateSong => "duplicate song in iTunes library"@,
        Error::UnknownDatabaseFormat => "unknown database format"@,
        Error::UnknownDatabaseVersion => "unknown database version"@,
        Error::UnknownEntryElement => "unknown entry element in database"@,
        Error::SongWithoutName => "song without name"@,
        Error::SongWithoutLocation => "song without location"@,
        Error::InvalidDiscNumber => "invalid disc number"@,
        Error::InvalidTrackNumber => "invalid track number"@,
        Error::UnknownPlaylistsFormat => "unknown playlists format"@,
        Error::NoPlaylists => "no playlist in playlists"@,
    }
}

impl Error {
    /// The words in which the error is reported.
    pub fn message(&self) -> (s: &'static str)
        ensures
            s@ == error_text(*self),
    {
        match self {
            Error::DuplicateSong => "duplicate song in iTunes library",
            Error::UnknownDatabaseFormat => "unknown database format",
            Error::UnknownDatabaseVersion => "unknown database version",
            Error::UnknownEntryElement => "unknown entry element in database",
            Error::SongWithoutName => "song without name",
            Error::SongWithoutLocation => "song without location",
            Error::InvalidDiscNumber => "invalid disc number",
            Error::InvalidTrackNumber => "invalid track number",
            Error::UnknownPlaylistsFormat => "unknown playlists format",
            Error::NoPlaylists => "no playlist in playlists",
        }
    }
}

/// Something that a run found worth telling and went on after.
#[derive(Debug)]
pub enum Warning {
    /// A song of the database has no track in the library. `key` shows the
    /// song's key.
    SongNotFound { key: String },
    /// A value that the database already held was replaced. `tag` names the
    /// field, `key` shows the song's key, `old` is the value replaced.
    Overriding { tag: String, key: String, old: String },
    /// A track of the library has no song in the database. `key` shows the
    /// track's key.
    SongUnused { key: String },
    /// A playlist was left out because it is defined by rules.
    SmartPlaylist { name: String },
    /// `count` items of a playlist were left out because the database has no
    /// song for them.
    ItemsNotFound { count: usize, name: String },
}

/// What a [`Warning`] holds, as plain values.
pub ghost enum WarningView {
    SongNotFound { key: Seq<char> },
    Overriding { tag: Seq<char>, key: Seq<char>, old: Seq<char> },
    SongUnused { key: Seq<char> },
    SmartPlaylist { name: Seq<char> },
    ItemsNotFound { count: usize, name: Seq<char> },
}

impl View for Warning {
    type V = WarningView;

    open spec fn view(&self) -> WarningView {
        match *self {
            Warning::SongNotFound { key } => WarningView::SongNotFound { key: key@ },
            Warning::Overriding { tag, key, old } => WarningView::Overriding {
                tag: tag@,
                key: key@,
                old: old@,
            },
            Warning::SongUnused { key } => WarningView::SongUnused { key: key@ },
            Warning::SmartPlaylist { name } => WarningView::SmartPlaylist { name: name@ },
            Warning::ItemsNotFound { count, name } => WarningView::ItemsNotFound {
                count,
                name: name@,
            },
        }
    }
}

/// A list of warnings, as plain values.
pub open spec fn warning_views(warnings: Seq<Warning>) -> Seq<WarningView> {
    warnings.map_values(|w: Warning| w@)
}

/// The words in which a warning is reported.
pub open spec fn warning_text(w: WarningView) -> Seq<char> {
    match w {
        WarningView::SongNotFound { key } => "song "@ + key + " not found"@,
        WarningView::Overriding { tag, key, old } => "overriding "@ + tag + " of "@ + key + ": "@
            + old,
        WarningView::SongUnused { key } => "song "@ + key + " unused"@,
        WarningView::SmartPlaylist { name } => "playlist "@ + name
            + " is skipped because it's smart"@,
        WarningView::ItemsNotFound { count, name } => decimal_nat(count as nat)
            + " items in playlist "@ + name + " are not found"@,
    }
}

impl Warning {
    /// The words in which the warning is reported.
    pub fn message(&self) -> (s: String)
        ensures
            s@ == warning_text(self@),
    {
        match self {
            Warning::SongNotFound { key } => {
                let mut s = String::from_str("song ");
                s.append(key.as_str());
                s.append(" not found");
                assert(s@ =~= warning_text(self@));
                s
            },
            Warning::Overriding { tag, key, old } => {
                let mut s = String::from_str("overriding ");
                s.append(tag.as_str());
                s.append(" of ");
                s.append(key.as_str());
                s.append(": ");
                s.append(old.as_str());
                assert(s@ =~= warning_text(self@));
                s
            },
            Warning::SongUnused { key } => {
                let mut s = String::from_str("song ");
                s.append(key.as_str());
                s.append(" unused");
                assert(s@ =~= warning_text(self@));
                s
            },
            Warning::SmartPlaylist { name } => {
                let mut s = String::from_str("playlist ");
                s.append(name.as_str());
                s.append(" is skipped because it's smart");
                assert(s@ =~= warning_text(self@));
                s
            },
            Warning::ItemsNotFound { count, name } => {
                let mut s = u64_to_string(*count as u64);
                s.append(" items in playlist ");
                s.append(name.as_str());
                s.append(" are not found");
                assert(s@ =~= warning_text(self@));
                s
            },
        }
    }
}

/// Adding one warning to a list adds its view to the list's views.
pub proof fn lemma_warning_views_push(warnings: Seq<Warning>, w: Warning)
    ensures
        warning_views(warnings.push(w)) == warning_views(warnings).push(w@),
{
    assert(warning_views(warnings.push(w)) =~= warning_views(warnings).push(w@));
}

} // verus!
