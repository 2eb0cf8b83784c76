//! The XML tree of the `elementtree` crate, as verified code sees it.
//!
//! An [`Element`] is opaque to the verifier. [`node_of`] names what it holds:
//! its tag, attributes, text, tail and children. The functions below call
//! the methods of `Element`; their contracts are taken from the source of
//! `elementtree` and are not proved here. Namespace prefixes, which an
//! element also carries, are not part of the model: no function of this
//! library reads or sets them.

use crate::search::first_index;
use elementtree::Element;
use elementtree::QName;
use vstd::prelude::*;

verus! {

/// `elementtree::Element`, an XML element with its children.
#[verifier::external_type_specification]
#[verifier::external_body]
pub struct ExElement(Element);

/// A qualified name: a local name, with or without a namespace.
pub ghost struct Name {
    pub ns: Option<Seq<char>>,
    pub local: Seq<char>,
}

/// What an element holds. The text is what stands between the start tag and
/// the first child; the tail is what follows the end tag, up to the next
/// sibling or the parent's end tag.
#[verifier::ext_equal]
pub ghost struct Node {
    pub tag: Name,
    pub attrs: Map<Name, Seq<char>>,
    pub text: Seq<char>,
    pub tail: Seq<char>,
    pub children: Seq<Node>,
}

/// What `e` holds.
pub uninterp spec fn node_of(e: Element) -> Node;

/// The name without a namespace whose local name is `local`.
pub open spec fn plain(local: Seq<char>) -> Name {
    Name { ns: None, local }
}

/// Whether a text, read as a qualified name, is a local name and nothing
/// else. A text that starts with a brace may name a namespace.
pub open spec fn is_plain(name: Seq<char>) -> bool {
    name.len() == 0 || name[0] != '{'
}

/// An element without attributes, text, tail or children.
pub open spec fn empty_node(tag: Name) -> Node {
    Node { tag, attrs: Map::empty(), text: Seq::empty(), tail: Seq::empty(), children: Seq::empty() }
}

/// The index of the first of `children` whose tag is `tag`.
pub open spec fn child_index(children: Seq<Node>, tag: Name) -> Option<int> {
    first_index(children, |n: Node| n.tag == tag)
}

/// The value of the attribute `name` of `node`, where `name` has no
/// namespace.
pub open spec fn attr(node: Node, name: Seq<char>) -> Option<Seq<char>> {
    if node.attrs.contains_key(plain(name)) {
        Some(node.attrs[plain(name)])
    } else {
        None
    }
}

/// `Element::new`: a new element with the given tag and nothing else.
#[verifier::external_body]
pub(crate) fn new_element(tag: &str) -> (e: Element)
    requires
        is_plain(tag@),
    ensures
        node_of(e) == empty_node(plain(tag@)),
{
    Element::new(tag)
}

/// `Element::tag`, compared with the name that `QName::from` makes of `name`:
/// whether the element's tag is `name`, without a namespace.
#[verifier::external_body]
pub(crate) fn has_tag(e: &Element, name: &str) -> (b: bool)
    requires
        is_plain(name@),
    ensures
        b == (node_of(*e).tag == plain(name@)),
{
    e.tag() == &QName::from(name)
}

/// `Element::get_attr`: the value of the attribute `name`, if the element
/// has it.
#[verifier::external_body]
pub(crate) fn get_attr<'a>(e: &'a Element, name: &'a str) -> (value: Option<&'a str>)
    requires
        is_plain(name@),
    ensures
        match value {
            Some(v) => attr(node_of(*e), name@) == Some(v@),
            None => attr(node_of(*e), name@) is None,
        },
{
    e.get_attr(name)
}

/// `Element::set_attr`: sets the attribute `name` to `value`, whether or not
/// the element had it.
#[verifier::external_body]
pub(crate) fn set_attr(e: &mut Element, name: &str, value: &str)
    requires
        is_plain(name@),
    ensures
        node_of(*final(e)) == (Node {
            attrs: node_of(*old(e)).attrs.insert(plain(name@), value@),
            ..node_of(*old(e))
        }),
{
    e.set_attr(name, value);
}

/// `Element::text`.
#[verifier::external_body]
pub(crate) fn text<'a>(e: &'a Element) -> (s: &'a str)
    ensures
        s@ == node_of(*e).text,
{
    e.text()
}

/// `Element::set_text`: replaces the text and nothing else.
#[verifier::external_body]
pub(crate) fn set_text(e: &mut Element, value: &str)
    ensures
        node_of(*final(e)) == (Node { text: value@, ..node_of(*old(e)) }),
{
    e.set_text(value);
}

/// `Element::tail`.
#[verifier::external_body]
pub(crate) fn tail<'a>(e: &'a Element) -> (s: &'a str)
    ensures
        s@ == node_of(*e).tail,
{
    e.tail()
}

/// `Element::set_tail`: replaces the tail and nothing else.
#[verifier::external_body]
pub(crate) fn set_tail(e: &mut Element, value: &str)
    ensures
        node_of(*final(e)) == (Node { tail: value@, ..node_of(*old(e)) }),
{
    e.set_tail(value);
}

/// `Element::child_count`.
#[verifier::external_body]
pub(crate) fn child_count(e: &Element) -> (n: usize)
    ensures
        n == node_of(*e).children.len(),
{
    e.child_count()
}

/// `Element::get_child_mut`: the child at `idx`, to be changed in place, or
/// nothing if there are not that many children. Whatever the caller makes of
/// the child is what the element holds at `idx` afterwards; nothing else of
/// the element changes.
#[verifier::external_body]
pub(crate) fn get_child_mut<'a>(e: &'a mut Element, idx: usize) -> (child: Option<&'a mut Element>)
    ensures
        match child {
            Some(c) => idx < node_of(*old(e)).children.len()
                && node_of(*c) == node_of(*old(e)).children[idx as int]
                && node_of(*final(e)) == (Node {
                    children: node_of(*old(e)).children.update(idx as int, node_of(*final(c))),
                    ..node_of(*old(e))
                }),
            None => idx >= node_of(*old(e)).children.len() && node_of(*final(e)) == node_of(
                *old(e),
            ),
        },
{
    e.get_child_mut(idx)
}

/// `Element::find`: the first child whose tag is `tag`, without a namespace.
#[verifier::external_body]
pub(crate) fn find<'a>(e: &'a Element, tag: &'a str) -> (child: Option<&'a Element>)
    requires
        is_plain(tag@),
    ensures
        match child {
            Some(c) => child_index(node_of(*e).children, plain(tag@)) is Some && node_of(*c)
                == node_of(*e).children[child_index(node_of(*e).children, plain(tag@)).unwrap()],
            None => child_index(node_of(*e).children, plain(tag@)) is None,
        },
{
    e.find(tag)
}

/// `Element::find_mut`: the first child whose tag is `tag`, without a
/// namespace, to be changed in place. Whatever the caller makes of the child
/// is what the element holds in its place afterwards; nothing else of the
/// element changes.
#[verifier::external_body]
pub(crate) fn find_mut<'a>(e: &'a mut Element, tag: &'a str) -> (child: Option<&'a mut Element>)
    requires
        is_plain(tag@),
    ensures
        match child {
            Some(c) => child_index(node_of(*old(e)).children, plain(tag@)) is Some && node_of(*c)
                == node_of(*old(e)).children[child_index(
                node_of(*old(e)).children,
                plain(tag@),
            ).unwrap()] && node_of(*final(e)) == (Node {
                children: node_of(*old(e)).children.update(
                    child_index(node_of(*old(e)).children, plain(tag@)).unwrap(),
                    node_of(*final(c)),
                ),
                ..node_of(*old(e))
            }),
            None => child_index(node_of(*old(e)).children, plain(tag@)) is None && node_of(
                *final(e),
            ) == node_of(*old(e)),
        },
{
    e.find_mut(tag)
}

/// `Element::append_child`: adds `child` after the children that the element
/// has.
#[verifier::external_body]
pub(crate) fn append_child(e: &mut Element, child: Element)
    ensures
        node_of(*final(e)) == (Node {
            children: node_of(*old(e)).children.push(node_of(child)),
            ..node_of(*old(e))
        }),
{
    e.append_child(child);
}

} // verus!
