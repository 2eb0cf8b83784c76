//! Bringing the songs of a Rhythmbox database up to date with the tracks of
//! an iTunes library.
//!
//! The database is a tree: a root `rhythmdb` whose children are entries. An
//! entry of type `song` is recognised by its key. Where the library has a
//! track with that key, the entry gets the track's date of addition, its
//! date of last play and its play count; nothing else of the entry changes.

use crate::itunes_library::Track;
use crate::report::lemma_warning_views_push;
use crate::report::warning_views;
use crate::report::Error;
use crate::report::Warning;
use crate::report::WarningView;
use crate::text::decimal;
use crate::text::decimal_nat;
use crate::search::first_index;
use crate::search::is_first;
use crate::search::lemma_first_index;
use crate::text::i64_to_string;
use crate::text::parse_bounded;
use crate::text::parse_usize;
use crate::text::str_eq;
use crate::text::u64_to_string;
use crate::track_key::key_text;
use crate::track_key::track_key;
use crate::track_key::KeyView;
use crate::track_key::TrackKey;
use crate::track_map::distinct_keys;
use crate::track_map::lemma_lookup_unique;
use crate::track_map::lookup;
use crate::track_map::TrackMap;
use crate::xml::attr;
use crate::xml::get_attr;
use crate::xml::has_tag;
use crate::xml::append_child;
use crate::xml::child_count;
use crate::xml::child_index;
use crate::xml::empty_node;
use crate::xml::find;
use crate::xml::find_mut;
use crate::xml::get_child_mut;
use crate::xml::is_plain;
use crate::xml::new_element;
use crate::xml::node_of;
use crate::xml::plain;
use crate::xml::set_tail;
use crate::xml::set_text;
use crate::xml::tail;
use crate::xml::text;
use crate::xml::Node;
use elementtree::Element;
use std::collections::HashMap;
use vstd::prelude::*;
use vstd::string::StringExecFns;

verus! {

/// What Rhythmbox writes as the artist of a song whose artist it does not
/// know. iTunes leaves the artist of such a track out.
pub const UNKNOWN_ARTIST: &'static str = "未知";

/// The text of the first child of `n` tagged `tag`.
pub open spec fn text_of_child(n: Node, tag: Seq<char>) -> Option<Seq<char>> {
    match child_index(n.children, plain(tag)) {
        Some(i) => Some(n.children[i].text),
        None => None,
    }
}

/// `n` with `text` as the text of its first child tagged `tag`. Where `n`
/// has such a child, only that child's text changes. Where it has none, a
/// new child is added after the others: it takes over the tail of the child
/// that was last, and that child gets the text of `n` as its tail, so that
/// the new child stands indented as its siblings do.
pub open spec fn upsert(n: Node, tag: Seq<char>, text: Seq<char>) -> Node {
    match child_index(n.children, plain(tag)) {
        Some(i) => Node { children: n.children.update(i, Node { text, ..n.children[i] }), ..n },
        None => if n.children.len() > 0 {
            let last = n.children.last();
            Node {
                children: n.children.update(n.children.len() - 1, Node { tail: n.text, ..last }).push(
                    Node { text, tail: last.tail, ..empty_node(plain(tag)) },
                ),
                ..n
            }
        } else {
            Node { children: seq![Node { text, ..empty_node(plain(tag)) }], ..n }
        },
    }
}

/// The warning that is due when `tag` is set on `n` for the song with key
/// `key`: one that tells the value replaced, unless there was none or the
/// field is the date of addition, which every run sets anew.
pub open spec fn overriding(n: Node, tag: Seq<char>, key: KeyView) -> Seq<WarningView> {
    match text_of_child(n, tag) {
        Some(old) => if tag == "first-seen"@ {
            Seq::empty()
        } else {
            seq![WarningView::Overriding { tag, key: key_text(key), old }]
        },
        None => Seq::empty(),
    }
}

/// `n` with the date at which `t` was added.
pub open spec fn with_first_seen(n: Node, t: Track) -> Node {
    upsert(n, "first-seen"@, decimal(t.date_added as int))
}

/// `n` with the date at which `t` was last played, if it ever was.
pub open spec fn with_last_played(n: Node, t: Track) -> Node {
    match t.play_date {
        Some(date) => upsert(n, "last-played"@, decimal(date as int)),
        None => n,
    }
}

/// `n` with the play count of `t`, if `t` has one above zero.
pub open spec fn with_play_count(n: Node, t: Track) -> Node {
    match t.play_count {
        Some(count) => if count > 0 {
            upsert(n, "play-count"@, decimal_nat(count as nat))
        } else {
            n
        },
        None => n,
    }
}

/// The entry `n` brought up to date with the track `t`.
pub open spec fn merged(n: Node, t: Track) -> Node {
    with_play_count(with_last_played(with_first_seen(n, t), t), t)
}

/// The warnings that bringing `n` up to date with `t` gives.
pub open spec fn merge_warnings(n: Node, t: Track) -> Seq<WarningView> {
    let a = with_first_seen(n, t);
    let b = with_last_played(a, t);
    (if t.play_date is Some {
        overriding(a, "last-played"@, track_key(t))
    } else {
        Seq::empty()
    }) + (if t.play_count is Some && t.play_count->0 > 0 {
        overriding(b, "play-count"@, track_key(t))
    } else {
        Seq::empty()
    })
}

/// Whether `n` is an entry of type `song`.
pub open spec fn is_song(n: Node) -> bool {
    n.tag == plain("entry"@) && attr(n, "type"@) == Some("song"@)
}

/// The number in the first child of `n` tagged `tag`, if there is such a
/// child and it holds a number.
pub open spec fn number_of_child(n: Node, tag: Seq<char>) -> Option<usize> {
    match text_of_child(n, tag) {
        Some(t) => match parse_bounded(t, usize::MAX as nat) {
            Some(v) => Some(v as usize),
            None => None,
        },
        None => None,
    }
}

/// Whether `n` has a child tagged `tag` that holds no number.
pub open spec fn number_is_malformed(n: Node, tag: Seq<char>) -> bool {
    text_of_child(n, tag) is Some && number_of_child(n, tag) is None
}

/// Why a song has no key, if it has none; the first of these: it has no
/// title, its disc number is no number, its track number is no number.
pub open spec fn key_fault(n: Node) -> Option<Error> {
    if text_of_child(n, "title"@) is None {
        Some(Error::SongWithoutName)
    } else if number_is_malformed(n, "disc-number"@) {
        Some(Error::InvalidDiscNumber)
    } else if number_is_malformed(n, "track-number"@) {
        Some(Error::InvalidTrackNumber)
    } else {
        None
    }
}

/// What is wrong with a child of the database, if anything is: that it is
/// no entry or, for a song, that it has no key or else no location.
pub open spec fn entry_fault(n: Node) -> Option<Error> {
    if n.tag != plain("entry"@) {
        Some(Error::UnknownEntryElement)
    } else if !is_song(n) {
        None
    } else if key_fault(n) is Some {
        key_fault(n)
    } else if text_of_child(n, "location"@) is None {
        Some(Error::SongWithoutLocation)
    } else {
        None
    }
}

/// The artist of a key made of a song of the database: absent where the
/// song has no artist or has [`UNKNOWN_ARTIST`] in its place.
pub open spec fn known_artist(artist: Option<Seq<char>>) -> Option<Seq<char>> {
    match artist {
        Some(a) => if a == UNKNOWN_ARTIST@ {
            None
        } else {
            Some(a)
        },
        None => None,
    }
}

/// The key of a song of the database.
pub open spec fn entry_key(n: Node) -> KeyView {
    KeyView {
        name: text_of_child(n, "title"@).unwrap(),
        artist: known_artist(text_of_child(n, "artist"@)),
        album: text_of_child(n, "album"@),
        disc_number: number_of_child(n, "disc-number"@),
        track_number: number_of_child(n, "track-number"@),
    }
}

/// A song whose artist is written as unknown has no artist in its key. So
/// its key is that of a track without an artist, where name, album, disc
/// number and track number agree, and never that of a track with an artist,
/// not even one whose artist is written in the same way.
pub proof fn lemma_unknown_artist(n: Node, t: Track)
    requires
        text_of_child(n, "artist"@) == Some(UNKNOWN_ARTIST@),
    ensures
        entry_key(n).artist is None,
        t.artist is Some ==> track_key(t) != entry_key(n),
        track_key(t) == entry_key(n) <==> {
            &&& t.artist is None
            &&& t.name@ == entry_key(n).name
            &&& track_key(t).album == entry_key(n).album
            &&& t.disc_number == entry_key(n).disc_number
            &&& t.track_number == entry_key(n).track_number
        },
{
}

/// Among tracks with distinct keys, a song whose artist is written as
/// unknown stands for the track without an artist that agrees with it in
/// name, album, disc number and track number.
pub proof fn lemma_unknown_artist_matches(n: Node, tracks: Seq<Track>, i: int)
    requires
        distinct_keys(tracks),
        0 <= i < tracks.len(),
        is_song(n),
        entry_fault(n) is None,
        text_of_child(n, "artist"@) == Some(UNKNOWN_ARTIST@),
        tracks[i].artist is None,
        tracks[i].name@ == entry_key(n).name,
        track_key(tracks[i]).album == entry_key(n).album,
        tracks[i].disc_number == entry_key(n).disc_number,
        tracks[i].track_number == entry_key(n).track_number,
    ensures
        matched_track(n, tracks) == Some(i),
{
    lemma_unknown_artist(n, tracks[i]);
    lemma_lookup_unique(tracks, i);
}

/// Where the file of a song of the database is.
pub open spec fn entry_location(n: Node) -> Seq<char> {
    text_of_child(n, "location"@).unwrap()
}

/// The index of the track that a child of the database stands for: the
/// track with the key of the song, where the child is a song with nothing
/// wrong and the library has such a track.
pub open spec fn matched_track(n: Node, tracks: Seq<Track>) -> Option<int> {
    if is_song(n) && entry_fault(n) is None {
        lookup(tracks, entry_key(n))
    } else {
        None
    }
}

/// What a child of the database becomes: a song with a track is brought up
/// to date with it, every other child stays as it is.
pub open spec fn synced_entry(n: Node, tracks: Seq<Track>) -> Node {
    match matched_track(n, tracks) {
        Some(t) => merged(n, tracks[t]),
        None => n,
    }
}

/// The warnings that a child of the database gives: those of bringing it up
/// to date or, for a song without a track, that it was not found.
pub open spec fn entry_warnings(n: Node, tracks: Seq<Track>) -> Seq<WarningView> {
    if is_song(n) && entry_fault(n) is None {
        match lookup(tracks, entry_key(n)) {
            Some(t) => merge_warnings(n, tracks[t]),
            None => seq![WarningView::SongNotFound { key: key_text(entry_key(n)) }],
        }
    } else {
        Seq::empty()
    }
}

/// The database with its first `k` children brought up to date.
pub open spec fn synced_prefix(db: Node, tracks: Seq<Track>, k: int) -> Node {
    Node {
        children: Seq::new(
            db.children.len(),
            |i: int|
                if i < k {
                    synced_entry(db.children[i], tracks)
                } else {
                    db.children[i]
                },
        ),
        ..db
    }
}

/// Where the songs among the first `k` children are, by the identifier of
/// the track that each stands for. Of two songs for one track the later one
/// counts.
pub open spec fn locations_upto(children: Seq<Node>, tracks: Seq<Track>, k: int) -> Map<
    u64,
    Seq<char>,
>
    decreases k,
{
    if k <= 0 {
        Map::empty()
    } else {
        let before = locations_upto(children, tracks, k - 1);
        match matched_track(children[k - 1], tracks) {
            Some(t) => before.insert(tracks[t].id.0, entry_location(children[k - 1])),
            None => before,
        }
    }
}

/// The warnings that the first `k` children give, in their order.
pub open spec fn warnings_upto(children: Seq<Node>, tracks: Seq<Track>, k: int) -> Seq<
    WarningView,
>
    decreases k,
{
    if k <= 0 {
        Seq::empty()
    } else {
        warnings_upto(children, tracks, k - 1) + entry_warnings(children[k - 1], tracks)
    }
}

/// Whether one of the first `k` children stands for the track at index `t`.
pub open spec fn is_used(children: Seq<Node>, tracks: Seq<Track>, k: int, t: int) -> bool {
    exists|i: int| 0 <= i < k && #[trigger] matched_track(children[i], tracks) == Some(t)
}

/// For each of the first `n` tracks that no child stands for, the warning
/// that it is unused, in the order of the tracks.
pub open spec fn unused_warnings(children: Seq<Node>, tracks: Seq<Track>, n: int) -> Seq<
    WarningView,
>
    decreases n,
{
    if n <= 0 {
        Seq::empty()
    } else {
        let before = unused_warnings(children, tracks, n - 1);
        if is_used(children, tracks, children.len() as int, n - 1) {
            before
        } else {
            before.push(WarningView::SongUnused { key: key_text(track_key(tracks[n - 1])) })
        }
    }
}

/// The index of the first child of the database with something wrong.
pub open spec fn first_fault(children: Seq<Node>) -> Option<int> {
    first_index(children, |n: Node| entry_fault(n) is Some)
}

/// Why the database cannot be brought up to date, if it cannot: its root is
/// not `rhythmdb`, its version is not 2.0, or something is wrong with one of
/// its children; the first of these that holds, and of the children the
/// first one.
pub open spec fn database_fault(db: Node) -> Option<Error> {
    if db.tag != plain("rhythmdb"@) {
        Some(Error::UnknownDatabaseFormat)
    } else if attr(db, "version"@) != Some("2.0"@) {
        Some(Error::UnknownDatabaseVersion)
    } else {
        match first_fault(db.children) {
            Some(f) => entry_fault(db.children[f]),
            None => None,
        }
    }
}

/// How many children of the database are gone through: all of them, or
/// those before the first one with something wrong, or none where the root
/// is not as it should be.
pub open spec fn synced_count(db: Node) -> int {
    if db.tag != plain("rhythmdb"@) || attr(db, "version"@) != Some("2.0"@) {
        0
    } else {
        match first_fault(db.children) {
            Some(f) => f,
            None => db.children.len() as int,
        }
    }
}

/// The warnings of a run over the whole database: those of its children in
/// their order, then the unused tracks in theirs.
pub open spec fn sync_warnings(db: Node, tracks: Seq<Track>) -> Seq<WarningView> {
    warnings_upto(db.children, tracks, db.children.len() as int) + unused_warnings(
        db.children,
        tracks,
        tracks.len() as int,
    )
}

/// The locations of a map, as plain values.
pub open spec fn location_views(m: Map<u64, String>) -> Map<u64, Seq<char>> {
    Map::new(|id: u64| m.contains_key(id), |id: u64| m[id]@)
}

/// What a run over the database gives back.
#[derive(Debug)]
pub struct SyncReport {
    /// Where the file of each track is that a song of the database stands
    /// for, by the number of the track's identifier.
    pub track_locations: HashMap<u64, String>,
    /// What the run found worth telling.
    pub warnings: Vec<Warning>,
}

/// The tags that this module reads and writes name no namespace.
pub(crate) proof fn lemma_tags_are_plain()
    ensures
        is_plain("rhythmdb"@),
        is_plain("version"@),
        is_plain("entry"@),
        is_plain("type"@),
        is_plain("title"@),
        is_plain("artist"@),
        is_plain("album"@),
        is_plain("disc-number"@),
        is_plain("track-number"@),
        is_plain("location"@),
        is_plain("first-seen"@),
        is_plain("last-played"@),
        is_plain("play-count"@),
{
    reveal_strlit("rhythmdb");
    reveal_strlit("version");
    reveal_strlit("entry");
    reveal_strlit("type");
    reveal_strlit("title");
    reveal_strlit("artist");
    reveal_strlit("album");
    reveal_strlit("disc-number");
    reveal_strlit("track-number");
    reveal_strlit("location");
    reveal_strlit("first-seen");
    reveal_strlit("last-played");
    reveal_strlit("play-count");
}

/// The text of the first child of `entry` tagged `tag`.
fn child_text<'a>(entry: &'a Element, tag: &'a str) -> (t: Option<&'a str>)
    requires
        is_plain(tag@),
    ensures
        match t {
            Some(s) => text_of_child(node_of(*entry), tag@) == Some(s@),
            None => text_of_child(node_of(*entry), tag@) is None,
        },
{
    match find(entry, tag) {
        Some(child) => Some(text(child)),
        None => None,
    }
}

/// Sets the text of the first child of `entry` tagged `tag`, or adds such a
/// child. A value replaced is told in a warning, as [`overriding`] says.
fn update_or_append_child(
    entry: &mut Element,
    tag: &str,
    value: &str,
    key: &TrackKey<'_>,
    warnings: &mut Vec<Warning>,
)
    requires
        is_plain(tag@),
    ensures
        node_of(*final(entry)) == upsert(node_of(*old(entry)), tag@, value@),
        warning_views(final(warnings)@) == warning_views(old(warnings)@) + overriding(
            node_of(*old(entry)),
            tag@,
            key@,
        ),
{
    let ghost before = node_of(*entry);
    match find_mut(entry, tag) {
        Some(element) => {
            if !str_eq(tag, "first-seen") {
                let w = Warning::Overriding {
                    tag: String::from_str(tag),
                    key: key.to_string(),
                    old: String::from_str(text(element)),
                };
                proof {
                    lemma_warning_views_push(warnings@, w);
                }
                warnings.push(w);
            }
            set_text(element, value);
        },
        None => {
            let count = child_count(entry);
            let mut element = new_element(tag);
            set_text(&mut element, value);
            if count > 0 {
                let indentation = String::from_str(text(entry));
                match get_child_mut(entry, count - 1) {
                    Some(last) => {
                        set_tail(&mut element, tail(last));
                        set_tail(last, indentation.as_str());
                    },
                    None => {},
                }
            }
            append_child(entry, element);
            assert(node_of(*entry).children =~= upsert(before, tag@, value@).children);
        },
    }
    assert(node_of(*entry) =~= upsert(before, tag@, value@));
    assert(warning_views(warnings@) =~= warning_views(old(warnings)@) + overriding(
        before,
        tag@,
        key@,
    ));
}

/// Brings `entry` up to date with `track`: sets the date of addition, the
/// date of last play if the track was ever played, and the play count if it
/// is above zero. Nothing else of the entry changes. A date of last play or
/// a play count that is replaced is told in a warning.
pub fn merge_track(entry: &mut Element, track: &Track, warnings: &mut Vec<Warning>)
    ensures
        node_of(*final(entry)) == merged(node_of(*old(entry)), *track),
        warning_views(final(warnings)@) == warning_views(old(warnings)@) + merge_warnings(
            node_of(*old(entry)),
            *track,
        ),
{
    proof {
        lemma_tags_are_plain();
    }
    let key = TrackKey::from(track);
    let first_seen = i64_to_string(track.date_added);
    update_or_append_child(entry, "first-seen", first_seen.as_str(), &key, warnings);
    match track.play_date {
        Some(date) => {
            let last_played = i64_to_string(date);
            update_or_append_child(entry, "last-played", last_played.as_str(), &key, warnings);
        },
        None => {},
    }
    match track.play_count {
        Some(count) => {
            if count > 0 {
                let play_count = u64_to_string(count as u64);
                update_or_append_child(entry, "play-count", play_count.as_str(), &key, warnings);
            }
        },
        None => {},
    }
    assert(warning_views(warnings@) =~= warning_views(old(warnings)@) + merge_warnings(
        node_of(*old(entry)),
        *track,
    ));
}

/// The number in the first child of `entry` tagged `tag`: none where there
/// is no such child, an error where the child holds no number.
fn child_number(entry: &Element, tag: &str) -> (r: Result<Option<usize>, ()>)
    requires
        is_plain(tag@),
    ensures
        match r {
            Ok(number) => !number_is_malformed(node_of(*entry), tag@) && number
                == number_of_child(node_of(*entry), tag@),
            Err(_) => number_is_malformed(node_of(*entry), tag@),
        },
{
    match child_text(entry, tag) {
        Some(number) => match parse_usize(number) {
            Some(v) => Ok(Some(v)),
            None => Err(()),
        },
        None => Ok(None),
    }
}

/// The key of a song of the database: its title, its artist unless that is
/// [`UNKNOWN_ARTIST`], its album, its disc number and its track number. An
/// artist, an album or a number that the song does not have is absent from
/// the key. A song without a title has no key, nor has one whose disc number
/// or track number is not a number.
pub fn song_key<'a>(entry: &'a Element) -> (r: Result<TrackKey<'a>, Error>)
    ensures
        match r {
            Ok(key) => key_fault(node_of(*entry)) is None && key@ == entry_key(node_of(*entry)),
            Err(e) => key_fault(node_of(*entry)) == Some(e),
        },
{
    proof {
        lemma_tags_are_plain();
    }
    let name = match child_text(entry, "title") {
        Some(name) => name,
        None => {
            return Err(Error::SongWithoutName);
        },
    };
    let artist = match child_text(entry, "artist") {
        Some(artist) => if str_eq(artist, UNKNOWN_ARTIST) {
            None
        } else {
            Some(artist)
        },
        None => None,
    };
    let album = child_text(entry, "album");
    let disc_number = match child_number(entry, "disc-number") {
        Ok(number) => number,
        Err(_) => {
            return Err(Error::InvalidDiscNumber);
        },
    };
    let track_number = match child_number(entry, "track-number") {
        Ok(number) => number,
        Err(_) => {
            return Err(Error::InvalidTrackNumber);
        },
    };
    Ok(TrackKey { name, artist, album, disc_number, track_number })
}

/// Goes through one child of the database. A song with a track is brought
/// up to date with it; what comes back is the index of the track and the
/// location of the song. A song without a track is told in a warning. A
/// child with something wrong is left as it is.
fn sync_entry(entry: &mut Element, tracks: &TrackMap<'_>, warnings: &mut Vec<Warning>) -> (r:
    Result<Option<(usize, String)>, Error>)
    ensures
        match entry_fault(node_of(*old(entry))) {
            Some(e) => r == Err::<Option<(usize, String)>, Error>(e) && node_of(*final(entry))
                == node_of(*old(entry)) && final(warnings)@ == old(warnings)@,
            None => r is Ok && node_of(*final(entry)) == synced_entry(
                node_of(*old(entry)),
                tracks@,
            ) && warning_views(final(warnings)@) == warning_views(old(warnings)@) + entry_warnings(
                node_of(*old(entry)),
                tracks@,
            ) && match r->Ok_0 {
                Some((t, location)) => matched_track(node_of(*old(entry)), tracks@) == Some(
                    t as int,
                ) && t < tracks@.len() && location@ == entry_location(node_of(*old(entry))),
                None => matched_track(node_of(*old(entry)), tracks@) is None,
            },
        },
{
    proof {
        lemma_tags_are_plain();
    }
    let ghost n = node_of(*entry);
    if !has_tag(entry, "entry") {
        return Err(Error::UnknownEntryElement);
    }
    let song = match get_attr(entry, "type") {
        Some(kind) => str_eq(kind, "song"),
        None => false,
    };
    if !song {
        assert(warning_views(warnings@) =~= warning_views(warnings@) + entry_warnings(n, tracks@));
        return Ok(None);
    }
    let key = match song_key(entry) {
        Ok(key) => key,
        Err(e) => {
            return Err(e);
        },
    };
    let location = match child_text(entry, "location") {
        Some(location) => String::from_str(location),
        None => {
            return Err(Error::SongWithoutLocation);
        },
    };
    match tracks.position(&key) {
        Some(t) => {
            merge_track(entry, tracks.track(t), warnings);
            Ok(Some((t, location)))
        },
        None => {
            let w = Warning::SongNotFound { key: key.to_string() };
            proof {
                lemma_warning_views_push(warnings@, w);
            }
            warnings.push(w);
            assert(warning_views(warnings@) =~= warning_views(old(warnings)@) + entry_warnings(
                n,
                tracks@,
            ));
            Ok(None)
        },
    }
}

/// Going through one more child adds its location and its warnings.
proof fn lemma_step(children: Seq<Node>, tracks: Seq<Track>, k: int)
    requires
        0 <= k < children.len(),
    ensures
        locations_upto(children, tracks, k + 1) == (match matched_track(children[k], tracks) {
            Some(t) => locations_upto(children, tracks, k).insert(
                tracks[t].id.0,
                entry_location(children[k]),
            ),
            None => locations_upto(children, tracks, k),
        }),
        warnings_upto(children, tracks, k + 1) == warnings_upto(children, tracks, k)
            + entry_warnings(children[k], tracks),
{
}

/// A database of which no child has been gone through is as it was.
pub proof fn lemma_synced_prefix_none(db: Node, tracks: Seq<Track>)
    ensures
        synced_prefix(db, tracks, 0) == db,
{
    assert(synced_prefix(db, tracks, 0).children =~= db.children);
}

/// What the database holds once its child at `i` has been gone through.
proof fn lemma_prefix_step(db: Node, tracks: Seq<Track>, i: int, child: Node, now: Node)
    requires
        0 <= i < db.children.len(),
        now == (Node {
            children: synced_prefix(db, tracks, i).children.update(i, child),
            ..synced_prefix(db, tracks, i)
        }),
    ensures
        child == db.children[i] ==> now == synced_prefix(db, tracks, i),
        child == synced_entry(db.children[i], tracks) ==> now == synced_prefix(db, tracks, i + 1),
{
    if child == db.children[i] {
        assert(now.children =~= synced_prefix(db, tracks, i).children);
    }
    if child == synced_entry(db.children[i], tracks) {
        assert(now.children =~= synced_prefix(db, tracks, i + 1).children);
    }
}

/// A track is used by the first `i + 1` children if it is used by the first
/// `i` or by the child at `i`.
proof fn lemma_used_step(children: Seq<Node>, tracks: Seq<Track>, i: int, t: int)
    requires
        0 <= i < children.len(),
    ensures
        is_used(children, tracks, i + 1, t) <==> is_used(children, tracks, i, t) || matched_track(
            children[i],
            tracks,
        ) == Some(t),
{
    if is_used(children, tracks, i + 1, t) {
        let k = choose|k: int|
            0 <= k < i + 1 && #[trigger] matched_track(children[k], tracks) == Some(t);
        if k < i {
            assert(is_used(children, tracks, i, t));
        }
    }
    if is_used(children, tracks, i, t) {
        let k = choose|k: int| 0 <= k < i && #[trigger] matched_track(children[k], tracks) == Some(t);
        assert(0 <= k < i + 1);
    }
    if matched_track(children[i], tracks) == Some(t) {
        assert(is_used(children, tracks, i + 1, t));
    }
}

/// Brings the songs of the database up to date with the tracks of the
/// library, child by child, and gives back where the songs are and what was
/// found worth telling.
///
/// The run ends with an error at the root if that is not a `rhythmdb` of
/// version 2.0, and at the first child with something wrong; the children
/// before that one have been brought up to date by then, the others are as
/// they were. Otherwise every song with a track is brought up to date with
/// it, and every other child is as it was.
pub fn sync_to_database(rhythmdb: &mut Element, itunes_track_map: &TrackMap<'_>) -> (r: Result<
    SyncReport,
    Error,
>)
    ensures
        node_of(*final(rhythmdb)) == synced_prefix(
            node_of(*old(rhythmdb)),
            itunes_track_map@,
            synced_count(node_of(*old(rhythmdb))),
        ),
        synced_count(node_of(*old(rhythmdb))) == 0 ==> node_of(*final(rhythmdb)) == node_of(
            *old(rhythmdb),
        ),
        match r {
            Ok(report) => {
                &&& database_fault(node_of(*old(rhythmdb))) is None
                &&& location_views(report.track_locations@) == locations_upto(
                    node_of(*old(rhythmdb)).children,
                    itunes_track_map@,
                    node_of(*old(rhythmdb)).children.len() as int,
                )
                &&& warning_views(report.warnings@) == sync_warnings(
                    node_of(*old(rhythmdb)),
                    itunes_track_map@,
                )
            },
            Err(e) => database_fault(node_of(*old(rhythmdb))) == Some(e),
        },
{
    broadcast use vstd::std_specs::hash::group_hash_axioms;

    proof {
        lemma_tags_are_plain();
    }
    let ghost db = node_of(*rhythmdb);
    let ghost tracks = itunes_track_map@;
    proof {
        lemma_synced_prefix_none(db, tracks);
    }
    if !has_tag(rhythmdb, "rhythmdb") {
        return Err(Error::UnknownDatabaseFormat);
    }
    let current = match get_attr(rhythmdb, "version") {
        Some(version) => str_eq(version, "2.0"),
        None => false,
    };
    if !current {
        return Err(Error::UnknownDatabaseVersion);
    }
    let track_count = itunes_track_map.len();
    let mut used: Vec<bool> = Vec::new();
    while used.len() < track_count
        invariant
            used@.len() <= track_count,
            forall|t: int| 0 <= t < used@.len() ==> !used@[t],
        decreases track_count - used@.len(),
    {
        used.push(false);
    }
    let mut track_locations: HashMap<u64, String> = HashMap::new();
    let mut warnings: Vec<Warning> = Vec::new();
    let count = child_count(rhythmdb);
    let mut i: usize = 0;
    assert(location_views(track_locations@) =~= locations_upto(db.children, tracks, 0));
    assert(warning_views(warnings@) =~= warnings_upto(db.children, tracks, 0));
    while i < count
        invariant
            i <= count,
            count == db.children.len(),
            db == node_of(*old(rhythmdb)),
            tracks == itunes_track_map@,
            track_count == tracks.len(),
            db.tag == plain("rhythmdb"@),
            attr(db, "version"@) == Some("2.0"@),
            node_of(*rhythmdb) == synced_prefix(db, tracks, i as int),
            forall|k: int| 0 <= k < i ==> entry_fault(#[trigger] db.children[k]) is None,
            location_views(track_locations@) == locations_upto(db.children, tracks, i as int),
            warning_views(warnings@) == warnings_upto(db.children, tracks, i as int),
            used@.len() == track_count,
            forall|t: int|
                0 <= t < track_count ==> (#[trigger] used@[t] <==> is_used(
                    db.children,
                    tracks,
                    i as int,
                    t,
                )),
        decreases count - i,
    {
        let ghost prefix = node_of(*rhythmdb);
        let ghost used_before = used@;
        let ghost locations_before = track_locations@;
        proof {
            lemma_step(db.children, tracks, i as int);
        }
        let entry = get_child_mut(rhythmdb, i).unwrap();
        let ghost child = node_of(*entry);
        assert(child == db.children[i as int]);
        let outcome = sync_entry(entry, itunes_track_map, &mut warnings);
        proof {
            lemma_prefix_step(
                db,
                tracks,
                i as int,
                if outcome is Ok {
                    synced_entry(child, tracks)
                } else {
                    child
                },
                node_of(*rhythmdb),
            );
        }
        match outcome {
            Err(e) => {
                proof {
                    lemma_first_index(db.children, |n: Node| entry_fault(n) is Some);
                    assert(is_first(db.children, |n: Node| entry_fault(n) is Some, i as int));
                    lemma_synced_prefix_none(db, tracks);
                }
                return Err(e);
            },
            Ok(found) => {
                match found {
                    Some((t, location)) => {
                        let id = itunes_track_map.track(t).id.0;
                        used.set(t, true);
                        track_locations.insert(id, location);
                        assert(location_views(track_locations@) =~= location_views(
                            locations_before,
                        ).insert(id, location@));
                    },
                    None => {},
                }
                assert forall|t: int| 0 <= t < track_count implies (#[trigger] used@[t]
                    <==> is_used(db.children, tracks, i + 1, t)) by {
                    lemma_used_step(db.children, tracks, i as int, t);
                    assert(used_before[t] <==> is_used(db.children, tracks, i as int, t));
                }
            },
        }
        i += 1;
    }
    let mut t: usize = 0;
    let ghost told = warnings@;
    assert(warning_views(warnings@) =~= warning_views(told) + unused_warnings(
        db.children,
        tracks,
        0,
    ));
    while t < track_count
        invariant
            t <= track_count,
            tracks == itunes_track_map@,
            track_count == tracks.len(),
            used@.len() == track_count,
            forall|u: int|
                0 <= u < track_count ==> (#[trigger] used@[u] <==> is_used(
                    db.children,
                    tracks,
                    db.children.len() as int,
                    u,
                )),
            warning_views(warnings@) == warning_views(told) + unused_warnings(
                db.children,
                tracks,
                t as int,
            ),
        decreases track_count - t,
    {
        if !used[t] {
            let key = TrackKey::from(itunes_track_map.track(t));
            let w = Warning::SongUnused { key: key.to_string() };
            proof {
                lemma_warning_views_push(warnings@, w);
            }
            warnings.push(w);
        }
        assert(warning_views(warnings@) =~= warning_views(told) + unused_warnings(
            db.children,
            tracks,
            t + 1,
        ));
        t += 1;
    }
    proof {
        lemma_first_index(db.children, |n: Node| entry_fault(n) is Some);
        lemma_synced_prefix_none(db, tracks);
    }
    Ok(SyncReport { track_locations, warnings })
}

} // verus!
