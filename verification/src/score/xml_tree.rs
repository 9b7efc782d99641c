//! Ways through the nodes of a document: the children of a node, the first
//! child of a name, an attribute by its name.

use crate::text::bytes_eq;
use crate::score::xml_doc::{node_views, XmlAttributeView, XmlNode, XmlNodeView};
use vstd::prelude::*;

verus! {

/// The node is an element of the name `name`.
pub open spec fn has_tag(n: XmlNodeView, name: Seq<u8>) -> bool {
    n.is_element && n.tag == name
}

/// The node at `j` lies below the node at `p`: nodes stand in document
/// order, so what lies below a node follows it, and its parent stands at
/// `p` or behind.
pub open spec fn lies_below(nodes: Seq<XmlNodeView>, p: int, j: int) -> bool {
    p < j < nodes.len() && (nodes[j].parent matches Some(q) && q >= p)
}

/// The node at `j` is a child of the node at `p`.
pub open spec fn is_child(nodes: Seq<XmlNodeView>, p: int, j: int) -> bool {
    nodes[j].parent == Some(p as usize)
}

/// The first child of `p` at `j` or behind that is an element of the name
/// `name`.
pub open spec fn find_child_from(nodes: Seq<XmlNodeView>, p: int, name: Seq<u8>, j: int)
    -> Option<int>
    decreases nodes.len() - j,
{
    if !lies_below(nodes, p, j) {
        None
    } else if is_child(nodes, p, j) && has_tag(nodes[j], name) {
        Some(j)
    } else {
        find_child_from(nodes, p, name, j + 1)
    }
}

/// The first child of `p` that is an element of the name `name`.
pub open spec fn find_child(nodes: Seq<XmlNodeView>, p: int, name: Seq<u8>) -> Option<int> {
    find_child_from(nodes, p, name, p + 1)
}

/// The text of the first child of `p` of the name `name`.
pub open spec fn child_text(nodes: Seq<XmlNodeView>, p: int, name: Seq<u8>) -> Option<Seq<u8>> {
    match find_child(nodes, p, name) {
        Some(c) => nodes[c].text,
        None => None,
    }
}

/// The children of `p` from `j` on that are elements, in their order.
pub open spec fn element_children_from(nodes: Seq<XmlNodeView>, p: int, j: int) -> Seq<int>
    decreases nodes.len() - j,
{
    if !lies_below(nodes, p, j) {
        Seq::empty()
    } else if is_child(nodes, p, j) && nodes[j].is_element {
        seq![j] + element_children_from(nodes, p, j + 1)
    } else {
        element_children_from(nodes, p, j + 1)
    }
}

/// The children of `p` that are elements, in their order.
pub open spec fn element_children(nodes: Seq<XmlNodeView>, p: int) -> Seq<int> {
    element_children_from(nodes, p, p + 1)
}

/// The elements of the name `name` below `p` from `j` on, in their order.
pub open spec fn elements_below_from(nodes: Seq<XmlNodeView>, p: int, name: Seq<u8>, j: int)
    -> Seq<int>
    decreases nodes.len() - j,
{
    if !lies_below(nodes, p, j) {
        Seq::empty()
    } else if has_tag(nodes[j], name) {
        seq![j] + elements_below_from(nodes, p, name, j + 1)
    } else {
        elements_below_from(nodes, p, name, j + 1)
    }
}

/// The elements of the name `name` from `j` on, in their order.
pub open spec fn elements_named_from(nodes: Seq<XmlNodeView>, name: Seq<u8>, j: int) -> Seq<int>
    decreases nodes.len() - j,
{
    if j < 0 || j >= nodes.len() {
        Seq::empty()
    } else if has_tag(nodes[j], name) {
        seq![j] + elements_named_from(nodes, name, j + 1)
    } else {
        elements_named_from(nodes, name, j + 1)
    }
}

/// The value of the first attribute of the name `name` from `j` on.
pub open spec fn attribute_from(attributes: Seq<XmlAttributeView>, name: Seq<u8>, j: int)
    -> Option<Seq<u8>>
    decreases attributes.len() - j,
{
    if j < 0 || j >= attributes.len() {
        None
    } else if attributes[j].name == name {
        Some(attributes[j].value)
    } else {
        attribute_from(attributes, name, j + 1)
    }
}

/// The value of the attribute of the name `name` of a node: of the first
/// attribute whose local name it is, with or without a namespace prefix.
/// This is how `roxmltree` finds an attribute by a plain name from its
/// version 0.21 on, and tags are found the same way.
pub open spec fn attribute_of(n: XmlNodeView, name: Seq<u8>) -> Option<Seq<u8>> {
    attribute_from(n.attributes, name, 0)
}

pub fn is_element_named(node: &XmlNode, name: &[u8]) -> (r: bool)
    ensures
        r == has_tag(node@, name@),
{
    node.is_element && bytes_eq(node.tag.as_slice(), name)
}

fn below(nodes: &Vec<XmlNode>, p: usize, j: usize) -> (r: bool)
    requires
        p < j,
    ensures
        r == lies_below(node_views(nodes@), p as int, j as int),
{
    if j >= nodes.len() {
        return false;
    }
    match nodes[j].parent {
        Some(q) => q >= p,
        None => false,
    }
}

fn child_of(nodes: &Vec<XmlNode>, p: usize, j: usize) -> (r: bool)
    requires
        j < nodes@.len(),
    ensures
        r == is_child(node_views(nodes@), p as int, j as int),
{
    match nodes[j].parent {
        Some(q) => q == p,
        None => false,
    }
}

pub fn first_child(nodes: &Vec<XmlNode>, p: usize, name: &[u8]) -> (found: Option<usize>)
    requires
        p < nodes@.len(),
    ensures
        match found {
            Some(c) => find_child(node_views(nodes@), p as int, name@) == Some(c as int) && c
                < nodes@.len(),
            None => find_child(node_views(nodes@), p as int, name@) is None,
        },
{
    let n = nodes.len();
    let mut j: usize = p + 1;
    while below(nodes, p, j)
        invariant
            p < j <= nodes@.len(),
            nodes@.len() <= usize::MAX,
            find_child(node_views(nodes@), p as int, name@) == find_child_from(
                node_views(nodes@),
                p as int,
                name@,
                j as int,
            ),
        decreases nodes@.len() - j,
    {
        if child_of(nodes, p, j) && is_element_named(&nodes[j], name) {
            return Some(j);
        }
        j = j + 1;
    }
    None
}

/// The text of a node, as a slice.
pub fn text_bytes(node: &XmlNode) -> (text: Option<&[u8]>)
    ensures
        match text {
            Some(t) => node@.text == Some(t@),
            None => node@.text is None,
        },
{
    match &node.text {
        Some(t) => Some(t.as_slice()),
        None => None,
    }
}

pub fn first_child_text<'a>(nodes: &'a Vec<XmlNode>, p: usize, name: &[u8]) -> (text: Option<
    &'a [u8],
>)
    requires
        p < nodes@.len(),
    ensures
        match text {
            Some(t) => child_text(node_views(nodes@), p as int, name@) == Some(t@),
            None => child_text(node_views(nodes@), p as int, name@) is None,
        },
{
    match first_child(nodes, p, name) {
        Some(c) => text_bytes(&nodes[c]),
        None => None,
    }
}

pub fn children_elements(nodes: &Vec<XmlNode>, p: usize) -> (found: Vec<usize>)
    requires
        p < nodes@.len(),
    ensures
        found@.len() == element_children(node_views(nodes@), p as int).len(),
        forall|k: int|
            0 <= k < found@.len() ==> (#[trigger] found@[k]) == element_children(
                node_views(nodes@),
                p as int,
            )[k] && found@[k] < nodes@.len(),
{
    let mut found: Vec<usize> = Vec::new();
    let ghost mut sofar: Seq<int> = Seq::empty();
    let n = nodes.len();
    let mut j: usize = p + 1;
    assert(sofar + element_children_from(node_views(nodes@), p as int, j as int)
        =~= element_children(node_views(nodes@), p as int));
    while below(nodes, p, j)
        invariant
            p < j <= nodes@.len(),
            nodes@.len() <= usize::MAX,
            found@.len() == sofar.len(),
            forall|k: int| 0 <= k < found@.len() ==> (#[trigger] found@[k]) == sofar[k] && found@[k]
                < nodes@.len(),
            sofar + element_children_from(node_views(nodes@), p as int, j as int) == element_children(
                node_views(nodes@),
                p as int,
            ),
        decreases nodes@.len() - j,
    {
        if child_of(nodes, p, j) && nodes[j].is_element {
            found.push(j);
            proof {
                let rest = element_children_from(node_views(nodes@), p as int, j + 1);
                assert(sofar + (seq![j as int] + rest) =~= sofar.push(j as int) + rest);
                sofar = sofar.push(j as int);
            }
        }
        j = j + 1;
    }
    proof {
        assert(sofar + Seq::<int>::empty() =~= sofar);
    }
    found
}

pub fn elements_below(nodes: &Vec<XmlNode>, p: usize, name: &[u8]) -> (found: Vec<usize>)
    requires
        p < nodes@.len(),
    ensures
        found@.len() == elements_below_from(node_views(nodes@), p as int, name@, p + 1).len(),
        forall|k: int|
            0 <= k < found@.len() ==> (#[trigger] found@[k]) == elements_below_from(
                node_views(nodes@),
                p as int,
                name@,
                p + 1,
            )[k] && found@[k] < nodes@.len(),
{
    let mut found: Vec<usize> = Vec::new();
    let ghost mut sofar: Seq<int> = Seq::empty();
    let ghost all = elements_below_from(node_views(nodes@), p as int, name@, p + 1);
    let n = nodes.len();
    let mut j: usize = p + 1;
    assert(sofar + elements_below_from(node_views(nodes@), p as int, name@, j as int) =~= all);
    while below(nodes, p, j)
        invariant
            p < j <= nodes@.len(),
            nodes@.len() <= usize::MAX,
            found@.len() == sofar.len(),
            forall|k: int| 0 <= k < found@.len() ==> (#[trigger] found@[k]) == sofar[k] && found@[k]
                < nodes@.len(),
            sofar + elements_below_from(node_views(nodes@), p as int, name@, j as int) == all,
        decreases nodes@.len() - j,
    {
        if is_element_named(&nodes[j], name) {
            found.push(j);
            proof {
                let rest = elements_below_from(node_views(nodes@), p as int, name@, j + 1);
                assert(sofar + (seq![j as int] + rest) =~= sofar.push(j as int) + rest);
                sofar = sofar.push(j as int);
            }
        }
        j = j + 1;
    }
    proof {
        assert(sofar + Seq::<int>::empty() =~= sofar);
    }
    found
}

pub fn elements_named(nodes: &Vec<XmlNode>, name: &[u8]) -> (found: Vec<usize>)
    ensures
        found@.len() == elements_named_from(node_views(nodes@), name@, 0).len(),
        forall|k: int|
            0 <= k < found@.len() ==> (#[trigger] found@[k]) == elements_named_from(
                node_views(nodes@),
                name@,
                0,
            )[k] && found@[k] < nodes@.len(),
{
    let mut found: Vec<usize> = Vec::new();
    let ghost mut sofar: Seq<int> = Seq::empty();
    let ghost all = elements_named_from(node_views(nodes@), name@, 0);
    let mut j: usize = 0;
    assert(sofar + elements_named_from(node_views(nodes@), name@, 0) =~= all);
    while j < nodes.len()
        invariant
            j <= nodes@.len(),
            found@.len() == sofar.len(),
            forall|k: int| 0 <= k < found@.len() ==> (#[trigger] found@[k]) == sofar[k] && found@[k]
                < nodes@.len(),
            sofar + elements_named_from(node_views(nodes@), name@, j as int) == all,
        decreases nodes@.len() - j,
    {
        if is_element_named(&nodes[j], name) {
            found.push(j);
            proof {
                let rest = elements_named_from(node_views(nodes@), name@, j + 1);
                assert(sofar + (seq![j as int] + rest) =~= sofar.push(j as int) + rest);
                sofar = sofar.push(j as int);
            }
        }
        j = j + 1;
    }
    proof {
        assert(sofar + Seq::<int>::empty() =~= sofar);
    }
    found
}

pub fn attribute<'a>(node: &'a XmlNode, name: &[u8]) -> (value: Option<&'a [u8]>)
    ensures
        match value {
            Some(v) => attribute_of(node@, name@) == Some(v@),
            None => attribute_of(node@, name@) is None,
        },
{
    let mut j: usize = 0;
    while j < node.attributes.len()
        invariant
            j <= node.attributes@.len(),
            attribute_of(node@, name@) == attribute_from(node@.attributes, name@, j as int),
        decreases node.attributes@.len() - j,
    {
        if bytes_eq(node.attributes[j].name.as_slice(), name) {
            return Some(node.attributes[j].value.as_slice());
        }
        j = j + 1;
    }
    None
}

} // verus!
