//! The rules by which the score is found in a compressed MusicXML archive:
//! the container file names it, and where it does not, the first entry
//! that looks like a score is taken.

use crate::text::{ends_with, has_prefix, has_suffix, starts_with};
use crate::score::xml_doc::{
    node_views, parse_document, read_nodes, text_of, utf8_text, xml_document, XmlNodeView,
};
use crate::score::xml_tree::{attribute, attribute_of, elements_named, elements_named_from};
use vstd::prelude::*;
use vstd::string::StringSliceAdditionalSpecFns;

verus! {

/// The path that a container document gives for the score: the
/// `full-path` attribute of its first `rootfile` element.
pub open spec fn root_file_of(nodes: Seq<XmlNodeView>) -> Option<Seq<u8>> {
    let found = elements_named_from(nodes, "rootfile".spec_bytes(), 0);
    if found.len() > 0 {
        attribute_of(nodes[found[0]], "full-path".spec_bytes())
    } else {
        None
    }
}

/// Reads the path of the score out of the text of a container file. A
/// text that is no document names none.
pub fn container_root_file(xml: &str) -> (path: Option<String>)
    ensures
        match xml_document(xml@) {
            Some(nodes) => match root_file_of(nodes) {
                Some(bytes) => path matches Some(p) && p@ == utf8_text(bytes),
                None => path is None,
            },
            None => path is None,
        },
{
    let doc = match parse_document(xml) {
        Ok(doc) => doc,
        Err(_) => {
            return None;
        },
    };
    let nodes = read_nodes(&doc);
    let found = elements_named(&nodes, "rootfile".as_bytes());
    if found.len() > 0 {
        assert(found@[0] == elements_named_from(node_views(nodes@), "rootfile".spec_bytes(), 0)[0]);
        match attribute(&nodes[found[0]], "full-path".as_bytes()) {
            Some(bytes) => Some(text_of(bytes)),
            None => None,
        }
    } else {
        None
    }
}

/// An entry of the archive may be the score: an XML file outside the
/// directory of the container.
pub open spec fn is_payload_name(name: Seq<u8>) -> bool {
    ends_with(name, ".xml".spec_bytes()) && !starts_with(name, "META-INF/".spec_bytes())
}

pub fn is_payload(name: &[u8]) -> (r: bool)
    ensures
        r == is_payload_name(name@),
{
    has_suffix(name, ".xml".as_bytes()) && !has_prefix(name, "META-INF/".as_bytes())
}

} // verus!
