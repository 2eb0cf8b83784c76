//! Adding the playlists of an iTunes library to the playlists of Rhythmbox.
//!
//! The playlists of Rhythmbox are a tree: a root `rhythmdb-playlists` whose
//! children are playlists. Each playlist of the library that is a list of
//! items becomes a new child, after those that are there, with one
//! `location` for each item whose track has a song in the database. A
//! playlist defined by rules is left out.

use crate::database::location_views;
use crate::itunes_library::ItunesLibrary;
use crate::itunes_library::Playlist;
use crate::itunes_library::PlaylistItem;
use crate::report::lemma_warning_views_push;
use crate::report::warning_views;
use crate::report::Error;
use crate::report::Warning;
use crate::report::WarningView;
use crate::xml::append_child;
use crate::xml::child_count;
use crate::xml::empty_node;
use crate::xml::get_child_mut;
use crate::xml::has_tag;
use crate::xml::is_plain;
use crate::xml::new_element;
use crate::xml::node_of;
use crate::xml::plain;
use crate::xml::set_attr;
use crate::xml::set_tail;
use crate::xml::set_text;
use crate::xml::Node;
use elementtree::Element;
use std::collections::HashMap;
use vstd::prelude::*;

verus! {

/// Whether the track of an item has a song in the database.
pub open spec fn is_found(item: PlaylistItem, locations: Map<u64, Seq<char>>) -> bool {
    locations.contains_key(item.id.0)
}

/// The locations of those of the first `k` items that are found, in the
/// order of the items. An item that occurs twice gives its location twice.
pub open spec fn resolved_upto(items: Seq<PlaylistItem>, locations: Map<u64, Seq<char>>, k: int) -> Seq<
    Seq<char>,
>
    decreases k,
{
    if k <= 0 {
        Seq::empty()
    } else {
        let before = resolved_upto(items, locations, k - 1);
        if is_found(items[k - 1], locations) {
            before.push(locations[items[k - 1].id.0])
        } else {
            before
        }
    }
}

/// How many of the first `k` items are not found.
pub open spec fn unfound_upto(items: Seq<PlaylistItem>, locations: Map<u64, Seq<char>>, k: int) -> int
    decreases k,
{
    if k <= 0 {
        0
    } else {
        unfound_upto(items, locations, k - 1) + if is_found(items[k - 1], locations) {
            0int
        } else {
            1int
        }
    }
}

/// The locations of the items of a playlist that are found.
pub open spec fn resolved(playlist: Playlist, locations: Map<u64, Seq<char>>) -> Seq<Seq<char>> {
    resolved_upto(playlist.items@, locations, playlist.items@.len() as int)
}

/// How many items of a playlist are not found.
pub open spec fn unfound(playlist: Playlist, locations: Map<u64, Seq<char>>) -> int {
    unfound_upto(playlist.items@, locations, playlist.items@.len() as int)
}

/// Each of the first `k` items is either found, and gives one location, or
/// is counted once as not found.
pub proof fn lemma_found_or_counted(
    items: Seq<PlaylistItem>,
    locations: Map<u64, Seq<char>>,
    k: int,
)
    requires
        0 <= k <= items.len(),
    ensures
        resolved_upto(items, locations, k).len() + unfound_upto(items, locations, k) == k,
        0 <= unfound_upto(items, locations, k),
    decreases k,
{
    if k > 0 {
        lemma_found_or_counted(items, locations, k - 1);
    }
}

/// One item of a playlist of Rhythmbox: the location of a song. The last
/// item of a playlist is followed by the indentation of the playlist's end,
/// every other one by that of the next item.
pub open spec fn location_node(location: Seq<char>, last: bool) -> Node {
    Node {
        text: location,
        tail: if last {
            "\n  "@
        } else {
            "\n    "@
        },
        ..empty_node(plain("location"@))
    }
}

/// The attributes of a playlist of Rhythmbox that is a list of items.
pub open spec fn playlist_attrs(name: Seq<char>) -> Map<crate::xml::Name, Seq<char>> {
    Map::empty().insert(plain("name"@), name).insert(plain("type"@), "static"@)
}

/// The items of a playlist of Rhythmbox, of which either none is marked as
/// the last or the last one is.
pub open spec fn location_nodes(found: Seq<Seq<char>>, closed: bool) -> Seq<Node> {
    Seq::new(found.len(), |i: int| location_node(found[i], closed && i == found.len() - 1))
}

/// What a playlist of the library becomes: a static playlist of its name,
/// with the locations of its items that are found, in their order. A
/// playlist of which no item is found is there all the same, with nothing
/// in it.
pub open spec fn playlist_node(playlist: Playlist, locations: Map<u64, Seq<char>>) -> Node {
    let found = resolved(playlist, locations);
    Node {
        tag: plain("playlist"@),
        attrs: playlist_attrs(playlist.name@),
        text: if found.len() > 0 {
            "\n    "@
        } else {
            Seq::empty()
        },
        tail: "\n  "@,
        children: location_nodes(found, true),
    }
}

/// What the first `k` playlists of the library become, in their order: one
/// playlist of Rhythmbox for each that is a list of items, nothing for one
/// that is defined by rules.
pub open spec fn playlist_nodes(playlists: Seq<Playlist>, locations: Map<u64, Seq<char>>, k: int) -> Seq<
    Node,
>
    decreases k,
{
    if k <= 0 {
        Seq::empty()
    } else {
        let before = playlist_nodes(playlists, locations, k - 1);
        if playlists[k - 1].smart_info is Some {
            before
        } else {
            before.push(playlist_node(playlists[k - 1], locations))
        }
    }
}

/// A playlist defined by rules adds nothing to the playlists of Rhythmbox,
/// not even a playlist without items; every other playlist adds one.
pub proof fn lemma_smart_playlist_left_out(
    playlists: Seq<Playlist>,
    locations: Map<u64, Seq<char>>,
    k: int,
)
    requires
        0 <= k < playlists.len(),
    ensures
        playlists[k].smart_info is Some ==> playlist_nodes(playlists, locations, k + 1)
            == playlist_nodes(playlists, locations, k),
        playlists[k].smart_info is None ==> playlist_nodes(playlists, locations, k + 1)
            == playlist_nodes(playlists, locations, k).push(
            playlist_node(playlists[k], locations),
        ),
{
}

/// The warnings that the first `k` playlists give, in their order: for one
/// defined by rules, that it is left out; for another, how many of its
/// items are not found, if any.
pub open spec fn playlist_warnings(
    playlists: Seq<Playlist>,
    locations: Map<u64, Seq<char>>,
    k: int,
) -> Seq<WarningView>
    decreases k,
{
    if k <= 0 {
        Seq::empty()
    } else {
        let before = playlist_warnings(playlists, locations, k - 1);
        let playlist = playlists[k - 1];
        if playlist.smart_info is Some {
            before.push(WarningView::SmartPlaylist { name: playlist.name@ })
        } else if unfound(playlist, locations) > 0 {
            before.push(
                WarningView::ItemsNotFound {
                    count: unfound(playlist, locations) as usize,
                    name: playlist.name@,
                },
            )
        } else {
            before
        }
    }
}

/// `children` with `tail` as the tail of the last of them.
pub open spec fn with_last_tail(children: Seq<Node>, tail: Seq<char>) -> Seq<Node> {
    if children.len() > 0 {
        children.update(children.len() - 1, Node { tail, ..children.last() })
    } else {
        children
    }
}

/// Why the playlists cannot be added to, if they cannot: the root is not
/// `rhythmdb-playlists`, or it has no child after which to add one.
pub open spec fn playlists_fault(doc: Node) -> Option<Error> {
    if doc.tag != plain("rhythmdb-playlists"@) {
        Some(Error::UnknownPlaylistsFormat)
    } else if doc.children.len() == 0 {
        Some(Error::NoPlaylists)
    } else {
        None
    }
}

/// The playlists of Rhythmbox with those of the library added after them.
/// The child that was last is followed by the indentation of the next
/// child, as each new child is, and the last child of all by a line break.
pub open spec fn migrated(doc: Node, playlists: Seq<Playlist>, locations: Map<u64, Seq<char>>) -> Node {
    Node {
        children: with_last_tail(
            with_last_tail(doc.children, "\n  "@) + playlist_nodes(
                playlists,
                locations,
                playlists.len() as int,
            ),
            "\n"@,
        ),
        ..doc
    }
}

proof fn lemma_tags_are_plain()
    ensures
        is_plain("rhythmdb-playlists"@),
        is_plain("playlist"@),
        is_plain("location"@),
        is_plain("name"@),
        is_plain("type"@),
{
    reveal_strlit("rhythmdb-playlists");
    reveal_strlit("playlist");
    reveal_strlit("location");
    reveal_strlit("name");
    reveal_strlit("type");
}

/// Builds the playlist of Rhythmbox that a playlist of the library becomes,
/// and counts the items that are not found.
pub fn playlist_element(playlist: &Playlist, track_locations: &HashMap<u64, String>) -> (r: (
    Element,
    usize,
))
    ensures
        node_of(r.0) == playlist_node(*playlist, location_views(track_locations@)),
        r.1 == unfound(*playlist, location_views(track_locations@)),
{
    broadcast use vstd::std_specs::hash::group_hash_axioms;

    proof {
        lemma_tags_are_plain();
    }
    let ghost locations = location_views(track_locations@);
    let ghost items = playlist.items@;
    let mut playlist_element = new_element("playlist");
    set_attr(&mut playlist_element, "name", playlist.name.as_str());
    set_attr(&mut playlist_element, "type", "static");
    set_text(&mut playlist_element, "\n    ");
    let mut unfound_count: usize = 0;
    let mut item_count: usize = 0;
    let n = playlist.items.len();
    let mut k: usize = 0;
    assert(node_of(playlist_element).children =~= location_nodes(
        resolved_upto(items, locations, 0),
        false,
    ));
    while k < n
        invariant
            k <= n,
            n == items.len(),
            items == playlist.items@,
            locations == location_views(track_locations@),
            is_plain("location"@),
            unfound_count == unfound_upto(items, locations, k as int),
            item_count == resolved_upto(items, locations, k as int).len(),
            node_of(playlist_element) == (Node {
                tag: plain("playlist"@),
                attrs: playlist_attrs(playlist.name@),
                text: "\n    "@,
                tail: Seq::empty(),
                children: location_nodes(resolved_upto(items, locations, k as int), false),
            }),
        decreases n - k,
    {
        proof {
            lemma_found_or_counted(items, locations, k as int);
            lemma_found_or_counted(items, locations, k + 1);
        }
        let ghost before = node_of(playlist_element);
        match track_locations.get(&playlist.items[k].id.0) {
            Some(location) => {
                let mut location_element = new_element("location");
                set_text(&mut location_element, location.as_str());
                set_tail(&mut location_element, "\n    ");
                append_child(&mut playlist_element, location_element);
                item_count += 1;
                assert(node_of(playlist_element).children =~= location_nodes(
                    resolved_upto(items, locations, k + 1),
                    false,
                ));
            },
            None => {
                unfound_count += 1;
            },
        }
        k += 1;
    }
    let ghost found = resolved_upto(items, locations, n as int);
    if item_count > 0 {
        match get_child_mut(&mut playlist_element, item_count - 1) {
            Some(last) => {
                set_tail(last, "\n  ");
            },
            None => {},
        }
    } else {
        set_text(&mut playlist_element, "");
        proof {
            reveal_strlit("");
        }
    }
    set_tail(&mut playlist_element, "\n  ");
    assert(node_of(playlist_element).children =~= location_nodes(found, true));
    assert(node_of(playlist_element).text =~= playlist_node(*playlist, locations).text);
    (playlist_element, unfound_count)
}

/// Adds the playlists of the library to those of Rhythmbox, in their order,
/// after the playlists that are there, and gives back what was found worth
/// telling. A playlist defined by rules is left out and told in a warning;
/// so is the number of items of a playlist that are not found.
///
/// Nothing is changed, and an error comes back, where the root is not
/// `rhythmdb-playlists` or has no child.
pub fn migrate_playlists(
    playlists: &mut Element,
    itunes_library: &ItunesLibrary,
    track_locations: &HashMap<u64, String>,
) -> (r: Result<Vec<Warning>, Error>)
    ensures
        match r {
            Ok(warnings) => {
                &&& playlists_fault(node_of(*old(playlists))) is None
                &&& node_of(*final(playlists)) == migrated(
                    node_of(*old(playlists)),
                    itunes_library.playlists@,
                    location_views(track_locations@),
                )
                &&& warning_views(warnings@) == playlist_warnings(
                    itunes_library.playlists@,
                    location_views(track_locations@),
                    itunes_library.playlists@.len() as int,
                )
            },
            Err(e) => playlists_fault(node_of(*old(playlists))) == Some(e) && node_of(
                *final(playlists),
            ) == node_of(*old(playlists)),
        },
{
    proof {
        lemma_tags_are_plain();
    }
    let ghost doc = node_of(*playlists);
    let ghost locations = location_views(track_locations@);
    let ghost sources = itunes_library.playlists@;
    if !has_tag(playlists, "rhythmdb-playlists") {
        return Err(Error::UnknownPlaylistsFormat);
    }
    let count = child_count(playlists);
    if count == 0 {
        return Err(Error::NoPlaylists);
    }
    match get_child_mut(playlists, count - 1) {
        Some(last) => {
            set_tail(last, "\n  ");
        },
        None => {},
    }
    let mut warnings: Vec<Warning> = Vec::new();
    let n = itunes_library.playlists.len();
    let mut k: usize = 0;
    assert(node_of(*playlists).children =~= with_last_tail(doc.children, "\n  "@) + playlist_nodes(
        sources,
        locations,
        0,
    ));
    assert(warning_views(warnings@) =~= playlist_warnings(sources, locations, 0));
    while k < n
        invariant
            k <= n,
            n == sources.len(),
            sources == itunes_library.playlists@,
            locations == location_views(track_locations@),
            doc.children.len() > 0,
            node_of(*playlists) == (Node {
                children: with_last_tail(doc.children, "\n  "@) + playlist_nodes(
                    sources,
                    locations,
                    k as int,
                ),
                ..doc
            }),
            warning_views(warnings@) == playlist_warnings(sources, locations, k as int),
        decreases n - k,
    {
        let playlist = &itunes_library.playlists[k];
        if playlist.smart_info.is_some() {
            let w = Warning::SmartPlaylist { name: playlist.name.clone() };
            proof {
                lemma_warning_views_push(warnings@, w);
            }
            warnings.push(w);
        } else {
            let (element, unfound_count) = playlist_element(playlist, track_locations);
            append_child(playlists, element);
            assert(node_of(*playlists).children =~= with_last_tail(doc.children, "\n  "@)
                + playlist_nodes(sources, locations, k + 1));
            if unfound_count > 0 {
                let w = Warning::ItemsNotFound {
                    count: unfound_count,
                    name: playlist.name.clone(),
                };
                proof {
                    lemma_warning_views_push(warnings@, w);
                }
                warnings.push(w);
            }
        }
        k += 1;
    }
    let total = child_count(playlists);
    match get_child_mut(playlists, total - 1) {
        Some(last) => {
            set_tail(last, "\n");
        },
        None => {},
    }
    assert(node_of(*playlists).children =~= migrated(doc, sources, locations).children);
    Ok(warnings)
}

} // verus!
