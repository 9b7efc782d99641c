//! An XML document as a list of its nodes in document order, each with its
//! parent. The text is parsed by the `roxmltree` crate.

use vstd::prelude::*;

verus! {

/// An attribute of an element: its local name, without the prefix of a
/// namespace where it has one, and its value.
#[derive(Clone, Debug)]
pub struct XmlAttribute {
    pub name: Vec<u8>,
    pub value: Vec<u8>,
}

/// A node of a document.
#[derive(Clone, Debug)]
pub struct XmlNode {
    /// The place of the parent in the list; the root has none.
    pub parent: Option<usize>,
    pub is_element: bool,
    /// The local name of an element; empty for any other node.
    pub tag: Vec<u8>,
    /// The text of a text node or a comment, and for an element that of its
    /// first child if that is a text node.
    pub text: Option<Vec<u8>>,
    pub attributes: Vec<XmlAttribute>,
}

/// An attribute as a mathematical value.
pub struct XmlAttributeView {
    pub name: Seq<u8>,
    pub value: Seq<u8>,
}

/// A node as a mathematical value.
pub struct XmlNodeView {
    pub parent: Option<usize>,
    pub is_element: bool,
    pub tag: Seq<u8>,
    pub text: Option<Seq<u8>>,
    pub attributes: Seq<XmlAttributeView>,
}

impl XmlAttribute {
    pub open spec fn view(&self) -> XmlAttributeView {
        XmlAttributeView { name: self.name@, value: self.value@ }
    }
}

impl XmlNode {
    pub open spec fn view(&self) -> XmlNodeView {
        XmlNodeView {
            parent: self.parent,
            is_element: self.is_element,
            tag: self.tag@,
            text: match self.text {
                Some(t) => Some(t@),
                None => None,
            },
            attributes: Seq::new(self.attributes@.len(), |i: int| self.attributes@[i]@),
        }
    }
}

/// The nodes of a list, as mathematical values.
pub open spec fn node_views(nodes: Seq<XmlNode>) -> Seq<XmlNodeView> {
    Seq::new(nodes.len(), |i: int| nodes[i]@)
}

#[verifier::external_type_specification]
#[verifier::external_body]
pub struct ExDocument<'input>(roxmltree::Document<'input>);

/// The nodes of a parsed document in document order, the root first.
pub uninterp spec fn document_nodes(doc: roxmltree::Document) -> Seq<XmlNodeView>;

/// The nodes that `roxmltree` reads out of a text, if it can read it.
pub uninterp spec fn xml_document(text: Seq<char>) -> Option<Seq<XmlNodeView>>;

/// The text that bytes stand for in UTF-8, with a replacement character
/// for what is not valid.
pub uninterp spec fn utf8_text(bytes: Seq<u8>) -> Seq<char>;

/// Parses a text by `roxmltree::Document::parse`. What comes out depends on
/// the text alone: the document where the text is well-formed, else the
/// message of the parser.
#[verifier::external_body]
pub(crate) fn parse_document<'a>(xml: &'a str) -> (parsed: Result<roxmltree::Document<'a>, String>)
    ensures
        match parsed {
            Ok(doc) => xml_document(xml@) == Some(document_nodes(doc)),
            Err(_) => xml_document(xml@) is None,
        },
{
    roxmltree::Document::parse(xml).map_err(|e| e.to_string())
}

/// The number of nodes of a parsed document, counted over
/// `Document::descendants`.
#[verifier::external_body]
pub(crate) fn node_count(doc: &roxmltree::Document) -> (count: usize)
    ensures
        count == document_nodes(*doc).len(),
{
    doc.descendants().count()
}

/// The node at the place `index` of a parsed document, by
/// `Document::get_node`: its parent, whether it is an element, its local
/// name, its text as `Node::text` gives it, and its attributes.
#[verifier::external_body]
pub(crate) fn node_at(doc: &roxmltree::Document, index: usize) -> (node: XmlNode)
    requires
        index < document_nodes(*doc).len(),
    ensures
        node@ == document_nodes(*doc)[index as int],
{
    let n = doc.get_node(roxmltree::NodeId::new(index as u32)).unwrap();
    XmlNode {
        parent: n.parent().map(|p| p.id().get_usize()),
        is_element: n.is_element(),
        tag: n.tag_name().name().as_bytes().to_vec(),
        text: n.text().map(|t| t.as_bytes().to_vec()),
        attributes: n.attributes().map(
            |a| XmlAttribute { name: a.name().as_bytes().to_vec(), value: a.value().as_bytes().to_vec() },
        ).collect(),
    }
}

/// The text of bytes by `String::from_utf8_lossy`.
#[verifier::external_body]
pub(crate) fn text_of(bytes: &[u8]) -> (text: String)
    ensures
        text@ == utf8_text(bytes@),
{
    String::from_utf8_lossy(bytes).into_owned()
}

/// The nodes of a parsed document, read out one by one.
pub fn read_nodes(doc: &roxmltree::Document) -> (nodes: Vec<XmlNode>)
    ensures
        node_views(nodes@) == document_nodes(*doc),
{
    let count = node_count(doc);
    let mut nodes: Vec<XmlNode> = Vec::new();
    let mut i: usize = 0;
    while i < count
        invariant
            i <= count,
            count == document_nodes(*doc).len(),
            nodes@.len() == i,
            forall|k: int| 0 <= k < i ==> (#[trigger] nodes@[k])@ == document_nodes(*doc)[k],
        decreases count - i,
    {
        nodes.push(node_at(doc, i));
        i = i + 1;
    }
    assert(node_views(nodes@) =~= document_nodes(*doc));
    nodes
}

} // verus!
