//! The bridge to the markup parser. Parsing markup into a tree follows the
//! standard tree-construction algorithm with error recovery, which is far
//! too large to restate; the library trusts the parser and gives its output
//! a name, then rebuilds its own arena from the flat listing with
//! `crate::dom::build_doc`, which is verified.

use vstd::prelude::*;

use crate::dom::flat_view;
use crate::dom::FlatNode;
use crate::dom::FlatNodeView;
use crate::dom::NodeData;

verus! {

/// The flat, depth-annotated pre-order listing of the node tree that the
/// markup parser produces for the given text. It is a function of the text
/// alone; nothing else is assumed about it here.
pub uninterp spec fn flat_parse_of(s: Seq<char>) -> Seq<FlatNodeView>;

/// Relies on scraper::Html::parse_document for standards-compliant,
/// error-recovering markup parsing, and on ego_tree's NodeRef::descendants,
/// which yields the tree in depth-first document order starting at the
/// root; each node is paired with its depth (its count of ancestors).
/// Elements keep their tag name and `id` attribute value; text nodes keep
/// their text; every other node kind is carried as `Other`.
#[verifier::external_body]
pub(crate) fn parse_flat(markup: &str) -> (flat: Vec<FlatNode>)
    ensures
        flat_view(flat@) == flat_parse_of(markup@),
{
    let html = scraper::Html::parse_document(markup);
    html.tree.root().descendants().map(|n| FlatNode {
        depth: n.ancestors().count(),
        data: match n.value() {
            scraper::Node::Text(t) => NodeData::Text { text: t.to_string() },
            scraper::Node::Element(e) => NodeData::Element {
                tag: e.name().to_string(),
                id: e.attr("id").map(|v| v.to_string()),
            },
            _ => NodeData::Other,
        },
    }).collect()
}

} // verus!
