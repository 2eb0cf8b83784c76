//! What holds of bringing a database up to date: a second run changes
//! nothing, and a track without plays leaves the play count of its song
//! alone.

use crate::database::database_fault;
use crate::database::entry_fault;
use crate::database::entry_key;
use crate::database::entry_location;
use crate::database::entry_warnings;
use crate::database::first_fault;
use crate::database::is_song;
use crate::database::locations_upto;
use crate::database::matched_track;
use crate::database::merge_warnings;
use crate::database::merged;
use crate::database::overriding;
use crate::database::sync_warnings;
use crate::database::synced_entry;
use crate::database::synced_prefix;
use crate::database::text_of_child;
use crate::database::unused_warnings;
use crate::database::upsert;
use crate::database::warnings_upto;
use crate::database::with_first_seen;
use crate::database::with_last_played;
use crate::database::with_play_count;
use crate::itunes_library::Track;
use crate::report::WarningView;
use crate::search::is_first;
use crate::search::lemma_first_index;
use crate::text::decimal;
use crate::track_key::track_key;
use crate::text::decimal_nat;
use crate::xml::child_index;
use crate::xml::plain;
use crate::xml::Name;
use crate::xml::Node;
use vstd::prelude::*;

verus! {

/// Whether `tag` names one of the three fields that a run sets.
pub open spec fn is_merged_tag(tag: Seq<char>) -> bool {
    tag == "first-seen"@ || tag == "last-played"@ || tag == "play-count"@
}

/// The fields that a run sets differ from each other and from those that it
/// reads.
proof fn lemma_tags_differ()
    ensures
        "first-seen"@ != "last-played"@,
        "first-seen"@ != "play-count"@,
        "last-played"@ != "play-count"@,
        !is_merged_tag("title"@),
        !is_merged_tag("artist"@),
        !is_merged_tag("album"@),
        !is_merged_tag("disc-number"@),
        !is_merged_tag("track-number"@),
        !is_merged_tag("location"@),
{
    reveal_strlit("first-seen");
    reveal_strlit("last-played");
    reveal_strlit("play-count");
    reveal_strlit("title");
    reveal_strlit("artist");
    reveal_strlit("album");
    reveal_strlit("disc-number");
    reveal_strlit("track-number");
    reveal_strlit("location");
    assert("first-seen"@[0] != "play-count"@[0]);
    assert("first-seen"@[0] != "last-played"@[0]);
    assert("last-played"@[0] != "play-count"@[0]);
    assert("title"@[0] != "first-seen"@[0] && "title"@[0] != "last-played"@[0] && "title"@[0]
        != "play-count"@[0]);
    assert("artist"@[0] != "first-seen"@[0] && "artist"@[0] != "last-played"@[0] && "artist"@[0]
        != "play-count"@[0]);
    assert("album"@[0] != "first-seen"@[0] && "album"@[0] != "last-played"@[0] && "album"@[0]
        != "play-count"@[0]);
    assert("disc-number"@[0] != "first-seen"@[0] && "disc-number"@[0] != "last-played"@[0]
        && "disc-number"@[0] != "play-count"@[0]);
    assert("track-number"@[0] != "first-seen"@[0] && "track-number"@[0] != "last-played"@[0]
        && "track-number"@[0] != "play-count"@[0]);
    assert("location"@.len() != "first-seen"@.len() && "location"@.len() != "last-played"@.len()
        && "location"@.len() != "play-count"@.len());
}

/// Children that keep their tags, followed by children with other tags,
/// have the first child tagged `tag` where it was.
proof fn lemma_child_index_kept(a: Seq<Node>, b: Seq<Node>, tag: Name)
    requires
        a.len() <= b.len(),
        forall|j: int| 0 <= j < a.len() ==> (#[trigger] b[j]).tag == a[j].tag,
        forall|j: int| a.len() <= j < b.len() ==> (#[trigger] b[j]).tag != tag,
    ensures
        child_index(b, tag) == child_index(a, tag),
{
    let p = |n: Node| n.tag == tag;
    lemma_first_index(a, p);
    lemma_first_index(b, p);
    match child_index(a, tag) {
        Some(i) => {
            assert(is_first(a, p, i));
            assert forall|j: int| 0 <= j < i implies !p(#[trigger] b[j]) by {
                assert(!p(a[j]));
            }
            assert(p(b[i]));
            assert(is_first(b, p, i));
        },
        None => {
            assert forall|j: int| 0 <= j < b.len() implies !p(#[trigger] b[j]) by {
                if j < a.len() {
                    assert(!p(a[j]));
                }
            }
        },
    }
}

/// Setting a field leaves the entry's own tag, attributes, text and tail
/// alone, gives the field its value, and leaves every other field as it is.
pub proof fn lemma_upsert(n: Node, tag: Seq<char>, text: Seq<char>, other: Seq<char>)
    ensures
        upsert(n, tag, text).tag == n.tag,
        upsert(n, tag, text).attrs == n.attrs,
        upsert(n, tag, text).text == n.text,
        upsert(n, tag, text).tail == n.tail,
        text_of_child(upsert(n, tag, text), tag) == Some(text),
        other != tag ==> text_of_child(upsert(n, tag, text), other) == text_of_child(n, other),
        other != tag ==> child_index(upsert(n, tag, text).children, plain(other)) == child_index(
            n.children,
            plain(other),
        ),
{
    let m = upsert(n, tag, text);
    let p = |c: Node| c.tag == plain(tag);
    lemma_first_index(n.children, p);
    lemma_first_index(m.children, p);
    match child_index(n.children, plain(tag)) {
        Some(i) => {
            assert(is_first(n.children, p, i));
            lemma_child_index_kept(n.children, m.children, plain(tag));
            if other != tag {
                lemma_child_index_kept(n.children, m.children, plain(other));
                let q = |c: Node| c.tag == plain(other);
                lemma_first_index(n.children, q);
                match child_index(n.children, plain(other)) {
                    Some(j) => {
                        assert(is_first(n.children, q, j));
                        assert(j != i);
                    },
                    None => {},
                }
            }
        },
        None => {
            let len = n.children.len() as int;
            assert(m.children.len() == len + 1);
            assert forall|j: int| 0 <= j < len implies !p(#[trigger] m.children[j]) by {
                assert(!p(n.children[j]));
            }
            assert(p(m.children[len]));
            assert(is_first(m.children, p, len));
            if other != tag {
                assert(plain(other) != plain(tag));
                lemma_child_index_kept(n.children, m.children, plain(other));
                let q = |c: Node| c.tag == plain(other);
                lemma_first_index(n.children, q);
                match child_index(n.children, plain(other)) {
                    Some(j) => {
                        assert(is_first(n.children, q, j));
                    },
                    None => {},
                }
            }
        },
    }
}

/// Setting a field to the value that it has changes nothing.
pub proof fn lemma_upsert_same(n: Node, tag: Seq<char>, text: Seq<char>)
    requires
        text_of_child(n, tag) == Some(text),
    ensures
        upsert(n, tag, text) == n,
{
    let i = child_index(n.children, plain(tag)).unwrap();
    lemma_first_index(n.children, |c: Node| c.tag == plain(tag));
    assert(is_first(n.children, |c: Node| c.tag == plain(tag), i));
    assert(upsert(n, tag, text).children =~= n.children);
}

/// Bringing an entry up to date leaves its own tag and attributes alone and
/// every field that is not one of the three that a run sets.
pub proof fn lemma_merge_keeps(n: Node, t: Track, other: Seq<char>)
    requires
        !is_merged_tag(other),
    ensures
        merged(n, t).tag == n.tag,
        merged(n, t).attrs == n.attrs,
        merged(n, t).text == n.text,
        merged(n, t).tail == n.tail,
        text_of_child(merged(n, t), other) == text_of_child(n, other),
{
    let a = with_first_seen(n, t);
    let b = with_last_played(a, t);
    lemma_upsert(n, "first-seen"@, decimal(t.date_added as int), other);
    if t.play_date is Some {
        lemma_upsert(a, "last-played"@, decimal(t.play_date->0 as int), other);
    }
    if t.play_count is Some && t.play_count->0 > 0 {
        lemma_upsert(b, "play-count"@, decimal_nat(t.play_count->0 as nat), other);
    }
}

/// An entry brought up to date is the same song as before: a song with the
/// same key and the same location, with as little wrong with it.
pub proof fn lemma_merge_keeps_song(n: Node, t: Track)
    ensures
        is_song(merged(n, t)) == is_song(n),
        entry_fault(merged(n, t)) == entry_fault(n),
        entry_key(merged(n, t)) == entry_key(n),
        entry_location(merged(n, t)) == entry_location(n),
{
    lemma_tags_differ();
    lemma_merge_keeps(n, t, "title"@);
    lemma_merge_keeps(n, t, "artist"@);
    lemma_merge_keeps(n, t, "album"@);
    lemma_merge_keeps(n, t, "disc-number"@);
    lemma_merge_keeps(n, t, "track-number"@);
    lemma_merge_keeps(n, t, "location"@);
}

/// An entry that was brought up to date with a track is not changed by
/// being brought up to date with it again.
pub proof fn lemma_merge_idempotent(n: Node, t: Track)
    ensures
        merged(merged(n, t), t) == merged(n, t),
{
    lemma_tags_differ();
    let first_seen = decimal(t.date_added as int);
    let a = with_first_seen(n, t);
    let b = with_last_played(a, t);
    let c = with_play_count(b, t);
    lemma_upsert(n, "first-seen"@, first_seen, "first-seen"@);
    if t.play_date is Some {
        let last_played = decimal(t.play_date->0 as int);
        lemma_upsert(a, "last-played"@, last_played, "first-seen"@);
        lemma_upsert(a, "last-played"@, last_played, "last-played"@);
    }
    if t.play_count is Some && t.play_count->0 > 0 {
        let play_count = decimal_nat(t.play_count->0 as nat);
        lemma_upsert(b, "play-count"@, play_count, "first-seen"@);
        lemma_upsert(b, "play-count"@, play_count, "last-played"@);
        lemma_upsert(b, "play-count"@, play_count, "play-count"@);
    }
    assert(text_of_child(c, "first-seen"@) == Some(first_seen));
    lemma_upsert_same(c, "first-seen"@, first_seen);
    if t.play_date is Some {
        lemma_upsert_same(c, "last-played"@, decimal(t.play_date->0 as int));
    }
    if t.play_count is Some && t.play_count->0 > 0 {
        lemma_upsert_same(c, "play-count"@, decimal_nat(t.play_count->0 as nat));
    }
}

/// A child of the database that was gone through stands for the same track
/// as before and is not changed by being gone through again.
pub proof fn lemma_synced_entry_idempotent(n: Node, tracks: Seq<Track>)
    ensures
        entry_fault(synced_entry(n, tracks)) == entry_fault(n),
        matched_track(synced_entry(n, tracks), tracks) == matched_track(n, tracks),
        entry_location(synced_entry(n, tracks)) == entry_location(n),
        synced_entry(synced_entry(n, tracks), tracks) == synced_entry(n, tracks),
{
    match matched_track(n, tracks) {
        Some(t) => {
            lemma_merge_keeps_song(n, tracks[t]);
            lemma_merge_idempotent(n, tracks[t]);
        },
        None => {},
    }
}

/// A second run changes nothing. Where a database was brought up to date
/// with a library, bringing it up to date with the same library again finds
/// nothing wrong, leaves every child as the first run left it, and finds
/// the same songs at the same locations.
pub proof fn lemma_sync_idempotent(db: Node, tracks: Seq<Track>)
    requires
        database_fault(db) is None,
    ensures
        ({
            let once = synced_prefix(db, tracks, db.children.len() as int);
            &&& database_fault(once) is None
            &&& synced_prefix(once, tracks, once.children.len() as int) == once
            &&& locations_upto(once.children, tracks, once.children.len() as int)
                == locations_upto(db.children, tracks, db.children.len() as int)
        }),
{
    let len = db.children.len() as int;
    let once = synced_prefix(db, tracks, len);
    let faulty = |n: Node| entry_fault(n) is Some;
    lemma_first_index(db.children, faulty);
    lemma_first_index(once.children, faulty);
    if first_fault(db.children) is Some {
        assert(is_first(db.children, faulty, first_fault(db.children).unwrap()));
    }
    assert forall|i: int| 0 <= i < len implies !faulty(#[trigger] once.children[i]) by {
        lemma_synced_entry_idempotent(db.children[i], tracks);
        assert(!faulty(db.children[i]));
    }
    assert(synced_prefix(once, tracks, len).children =~= once.children) by {
        assert forall|i: int| 0 <= i < len implies synced_entry(once.children[i], tracks)
            == once.children[i] by {
            lemma_synced_entry_idempotent(db.children[i], tracks);
        }
    }
    lemma_locations_kept(db, tracks, len);
}

/// The songs among the first `k` children are found at the same locations
/// after a run as before it.
proof fn lemma_locations_kept(db: Node, tracks: Seq<Track>, k: int)
    requires
        0 <= k <= db.children.len(),
    ensures
        locations_upto(
            synced_prefix(db, tracks, db.children.len() as int).children,
            tracks,
            k,
        ) == locations_upto(db.children, tracks, k),
    decreases k,
{
    if k > 0 {
        lemma_locations_kept(db, tracks, k - 1);
        lemma_synced_entry_idempotent(db.children[k - 1], tracks);
    }
}

/// The map of locations holds a track's identifier only where one of the
/// children gone through stands for that track.
pub proof fn lemma_locations_only_matched(children: Seq<Node>, tracks: Seq<Track>, k: int, id: u64)
    requires
        locations_upto(children, tracks, k).contains_key(id),
    ensures
        exists|i: int|
            0 <= i < k && (#[trigger] matched_track(children[i], tracks)) is Some
                && tracks[matched_track(children[i], tracks)->0].id.0 == id,
    decreases k,
{
    if k > 0 {
        let last = matched_track(children[k - 1], tracks);
        if last is Some && tracks[last->0].id.0 == id {
        } else {
            lemma_locations_only_matched(children, tracks, k - 1, id);
            let i = choose|i: int|
                0 <= i < k - 1 && (#[trigger] matched_track(children[i], tracks)) is Some
                    && tracks[matched_track(children[i], tracks)->0].id.0 == id;
            assert(0 <= i < k);
        }
    }
}

/// Whether a warning tells that a date of addition was replaced.
pub open spec fn tells_first_seen(w: WarningView) -> bool {
    w matches WarningView::Overriding { tag, .. } && tag == "first-seen"@
}

/// No warning of a run tells that a date of addition was replaced, whether
/// the database was brought up to date before or not.
pub proof fn lemma_first_seen_never_told(db: Node, tracks: Seq<Track>, i: int)
    requires
        0 <= i < sync_warnings(db, tracks).len(),
    ensures
        !tells_first_seen(sync_warnings(db, tracks)[i]),
{
    lemma_warnings_upto_quiet(db.children, tracks, db.children.len() as int);
    lemma_unused_warnings_quiet(db.children, tracks, tracks.len() as int);
    let told = warnings_upto(db.children, tracks, db.children.len() as int);
    let unused = unused_warnings(db.children, tracks, tracks.len() as int);
    if i < told.len() {
        assert(sync_warnings(db, tracks)[i] == told[i]);
    } else {
        assert(sync_warnings(db, tracks)[i] == unused[i - told.len()]);
    }
}

proof fn lemma_merge_warnings_quiet(n: Node, t: Track, i: int)
    requires
        0 <= i < merge_warnings(n, t).len(),
    ensures
        !tells_first_seen(merge_warnings(n, t)[i]),
{
    lemma_tags_differ();
    let a = with_first_seen(n, t);
    let b = with_last_played(a, t);
    let x = if t.play_date is Some {
        overriding(a, "last-played"@, track_key(t))
    } else {
        Seq::empty()
    };
    let y = if t.play_count is Some && t.play_count->0 > 0 {
        overriding(b, "play-count"@, track_key(t))
    } else {
        Seq::empty()
    };
    assert(merge_warnings(n, t) == x + y);
    if i < x.len() {
        assert((x + y)[i] == x[i]);
    } else {
        assert((x + y)[i] == y[i - x.len()]);
    }
}

proof fn lemma_warnings_upto_quiet(children: Seq<Node>, tracks: Seq<Track>, k: int)
    ensures
        forall|i: int|
            0 <= i < warnings_upto(children, tracks, k).len() ==> !tells_first_seen(
                #[trigger] warnings_upto(children, tracks, k)[i],
            ),
    decreases k,
{
    if k > 0 {
        lemma_warnings_upto_quiet(children, tracks, k - 1);
        let before = warnings_upto(children, tracks, k - 1);
        let w = entry_warnings(children[k - 1], tracks);
        let all = warnings_upto(children, tracks, k);
        assert(all == before + w);
        assert forall|i: int| 0 <= i < all.len() implies !tells_first_seen(#[trigger] all[i]) by {
            if i < before.len() {
                assert(all[i] == before[i]);
            } else {
                let j = i - before.len();
                assert(all[i] == w[j]);
                match matched_track(children[k - 1], tracks) {
                    Some(t) => {
                        lemma_merge_warnings_quiet(children[k - 1], tracks[t], j);
                    },
                    None => {},
                }
            }
        }
    }
}

proof fn lemma_unused_warnings_quiet(children: Seq<Node>, tracks: Seq<Track>, n: int)
    ensures
        forall|i: int|
            0 <= i < unused_warnings(children, tracks, n).len() ==> !tells_first_seen(
                #[trigger] unused_warnings(children, tracks, n)[i],
            ),
    decreases n,
{
    if n > 0 {
        lemma_unused_warnings_quiet(children, tracks, n - 1);
        let before = unused_warnings(children, tracks, n - 1);
        let all = unused_warnings(children, tracks, n);
        assert forall|i: int| 0 <= i < all.len() implies !tells_first_seen(#[trigger] all[i]) by {
            if i < before.len() {
                assert(all[i] == before[i]);
            }
        }
    }
}

/// A track without a play count, or with a play count of zero, leaves the
/// play count of its song alone: the song has one afterwards only if it had
/// one before, and then the same. No child tagged `play-count` is added,
/// and none gets another text.
pub proof fn lemma_play_count_untouched(n: Node, t: Track)
    requires
        t.play_count is None || t.play_count == Some(0usize),
    ensures
        text_of_child(merged(n, t), "play-count"@) == text_of_child(n, "play-count"@),
        child_index(merged(n, t).children, plain("play-count"@)) == child_index(
            n.children,
            plain("play-count"@),
        ),
{
    lemma_tags_differ();
    let a = with_first_seen(n, t);
    lemma_upsert(n, "first-seen"@, decimal(t.date_added as int), "play-count"@);
    if t.play_date is Some {
        lemma_upsert(a, "last-played"@, decimal(t.play_date->0 as int), "play-count"@);
    }
}

} // verus!
