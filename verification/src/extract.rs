//! The content extractor: parses markup and isolates the single subtree
//! that holds the documentation body, identified by a fixed `id` marker on
//! its container element. Navigation, scripts and styling around it are
//! simply never selected.

use vstd::prelude::*;

use crate::dom::build_doc;
use crate::dom::spec_build;
use crate::dom::ArenaNode;
use crate::dom::ArenaNodeView;
use crate::dom::NodeData;
use crate::dom::NodeDataView;
use crate::parse::flat_parse_of;
use crate::parse::parse_flat;
use crate::render::ContentRoot;

verus! {

/// Extraction can fail in exactly one way: no element in the document
/// carries the content-root marker.
#[derive(Debug, PartialEq, Eq, Structural)]
pub enum ExtractError {
    NotFound,
}

impl ExtractError {
    /// The message shown to a caller for this failure.
    pub fn describe(&self) -> (r: String)
        ensures
            r@ == "could not find main content section"@,
    {
        String::from_str("could not find main content section")
    }
}

/// The `id` attribute value that marks the documentation body container.
pub open spec fn spec_content_marker() -> Seq<char> {
    "main-content"@
}

/// Whether a node is an element whose `id` attribute equals the given
/// marker. The marker is the content-location strategy: a new markup
/// source only needs a new marker value.
pub open spec fn is_marked(n: ArenaNodeView, marker: Seq<char>) -> bool {
    n.data matches NodeDataView::Element { id: Some(id), .. } && id == marker
}

/// Whether a node carries the fixed content-root marker.
pub open spec fn is_content_root(n: ArenaNodeView) -> bool {
    is_marked(n, spec_content_marker())
}

/// Index of the first node marked with `marker` at or after `k`; the
/// document length when there is none.
pub open spec fn first_marked_at(d: Seq<ArenaNodeView>, marker: Seq<char>, k: int) -> int
    decreases d.len() - k,
{
    if k < 0 || k >= d.len() {
        d.len() as int
    } else if is_marked(d[k], marker) {
        k
    } else {
        first_marked_at(d, marker, k + 1)
    }
}

/// Index of the first content root in document order; the document length
/// when there is none.
pub open spec fn spec_first_root(d: Seq<ArenaNodeView>) -> int {
    first_marked_at(d, spec_content_marker(), 0)
}

/// The arena that parsing the given markup describes.
pub open spec fn spec_doc_of(markup: Seq<char>) -> Seq<ArenaNodeView> {
    spec_build(flat_parse_of(markup))
}

/// Extraction determinism: when exactly one node carries the marker, the
/// first content root is that node, so extraction returns it.
pub proof fn lemma_first_root_unique(d: Seq<ArenaNodeView>, i: int)
    requires
        0 <= i < d.len(),
        is_content_root(d[i]),
        forall|j: int| 0 <= j < d.len() && j != i ==> !is_content_root(#[trigger] d[j]),
    ensures
        spec_first_root(d) == i,
{
    lemma_first_root_reaches(d, spec_content_marker(), 0, i);
}

proof fn lemma_first_root_reaches(d: Seq<ArenaNodeView>, marker: Seq<char>, k: int, i: int)
    requires
        0 <= k <= i < d.len(),
        is_marked(d[i], marker),
        forall|j: int| k <= j < i ==> !is_marked(#[trigger] d[j], marker),
    ensures
        first_marked_at(d, marker, k) == i,
    decreases i - k,
{
    if k < i {
        lemma_first_root_reaches(d, marker, k + 1, i);
    }
}

fn node_is_marked(n: &ArenaNode, marker: &String) -> (b: bool)
    ensures
        b == is_marked(n@, marker@),
{
    match &n.data {
        NodeData::Element { id: Some(s), .. } => *s == *marker,
        _ => false,
    }
}

/// Parses the markup and selects the first subtree whose element carries
/// the given marker as its `id` value. The marker is the pluggable
/// content-location strategy: `extract` supplies the fixed one, and a new
/// markup source only needs to pass another.
pub fn extract_with(markup: &str, marker: &str) -> (r: Result<ContentRoot, ExtractError>)
    ensures
        match r {
            Ok(cr) => {
                &&& cr.doc@ == spec_doc_of(markup@)
                &&& cr.wf()
                &&& cr.root as int == first_marked_at(spec_doc_of(markup@), marker@, 0)
                &&& is_marked(cr.doc@[cr.root as int], marker@)
                &&& forall|j: int|
                    0 <= j < cr.root ==> !is_marked(#[trigger] cr.doc@[j], marker@)
            },
            Err(e) => {
                &&& e == ExtractError::NotFound
                &&& forall|j: int|
                    0 <= j < spec_doc_of(markup@).len() ==> !is_marked(
                        #[trigger] spec_doc_of(markup@)[j],
                        marker@,
                    )
            },
        },
{
    let flat = parse_flat(markup);
    let doc = build_doc(&flat);
    let ghost d = spec_doc_of(markup@);
    proof {
        assert(doc@ == d);
    }
    let m = String::from_str(marker);
    let n: usize = doc.nodes.len();
    let mut i: usize = 0;
    while i < n
        invariant
            n == doc@.len(),
            i <= n,
            d == spec_doc_of(markup@),
            doc@ == d,
            doc.wf(),
            m@ == marker@,
            forall|j: int| 0 <= j < i ==> !is_marked(#[trigger] d[j], marker@),
            first_marked_at(d, marker@, 0) == first_marked_at(d, marker@, i as int),
        decreases n - i,
    {
        proof {
            assert(d[i as int] == doc.nodes@[i as int]@);
        }
        if node_is_marked(&doc.nodes[i], &m) {
            proof {
                assert(doc@ == spec_doc_of(markup@));
                assert(first_marked_at(d, marker@, i as int) == i);
            }
            return Ok(ContentRoot { doc, root: i });
        }
        i = i + 1;
    }
    Err(ExtractError::NotFound)
}

/// Parses the markup and selects the unique content-root subtree. With no
/// marked element anywhere, fails with `NotFound`; with several (which a
/// well-formed document never has), the first in document order wins.
pub fn extract(markup: &str) -> (r: Result<ContentRoot, ExtractError>)
    ensures
        match r {
            Ok(cr) => {
                &&& cr.doc@ == spec_doc_of(markup@)
                &&& cr.wf()
                &&& cr.root as int == spec_first_root(spec_doc_of(markup@))
                &&& is_content_root(cr.doc@[cr.root as int])
                &&& forall|j: int|
                    0 <= j < cr.root ==> !is_content_root(#[trigger] cr.doc@[j])
            },
            Err(e) => {
                &&& e == ExtractError::NotFound
                &&& forall|j: int|
                    0 <= j < spec_doc_of(markup@).len() ==> !is_content_root(
                        #[trigger] spec_doc_of(markup@)[j],
                    )
            },
        },
{
    extract_with(markup, "main-content")
}

} // verus!
