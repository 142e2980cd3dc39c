//! The text renderer: a depth-first walk of a content subtree that emits
//! text nodes as lines, surrounds block elements with newlines, skips
//! script and style subtrees entirely, and passes through inline elements
//! with no added spacing.

use vstd::prelude::*;

use crate::dom::doc_wf;
use crate::dom::ArenaNodeView;
use crate::dom::Doc;
use crate::dom::NodeData;
use crate::dom::NodeDataView;

verus! {

/// Tags whose whole subtree is excluded from rendering.
pub open spec fn is_skip_tag(t: Seq<char>) -> bool {
    t == "script"@ || t == "style"@
}

/// Tags rendered as blocks: a newline before and after their subtree.
/// Everything else is inline and adds no spacing.
pub open spec fn is_block_tag(t: Seq<char>) -> bool {
    ||| t == "div"@
    ||| t == "p"@
    ||| t == "h1"@
    ||| t == "h2"@
    ||| t == "h3"@
    ||| t == "h4"@
    ||| t == "h5"@
    ||| t == "h6"@
    ||| t == "pre"@
    ||| t == "blockquote"@
    ||| t == "li"@
}

fn tag_is_skip(t: &String) -> (b: bool)
    ensures
        b == is_skip_tag(t@),
{
    *t == String::from_str("script") || *t == String::from_str("style")
}

fn tag_is_block(t: &String) -> (b: bool)
    ensures
        b == is_block_tag(t@),
{
    *t == String::from_str("div") || *t == String::from_str("p") || *t == String::from_str("h1")
        || *t == String::from_str("h2") || *t == String::from_str("h3") || *t == String::from_str(
        "h4",
    ) || *t == String::from_str("h5") || *t == String::from_str("h6") || *t == String::from_str(
        "pre",
    ) || *t == String::from_str("blockquote") || *t == String::from_str("li")
}

/// Text a node contributes: its literal text and a newline for a text
/// node; nothing for a skip element or any non-element node; its children
/// wrapped in newlines for a block element; its children bare for an
/// inline element.
pub open spec fn spec_render_node(d: Seq<ArenaNodeView>, i: int) -> Seq<char>
    decreases d.len() - i, 1int, 0int,
    when doc_wf(d) && 0 <= i < d.len()
{
    match d[i].data {
        NodeDataView::Text { text } => text + seq!['\n'],
        NodeDataView::Element { tag, id } => {
            if is_skip_tag(tag) {
                Seq::empty()
            } else if is_block_tag(tag) {
                seq!['\n'] + spec_render_children(d, i, 0) + seq!['\n']
            } else {
                spec_render_children(d, i, 0)
            }
        },
        NodeDataView::Other => Seq::empty(),
    }
}

/// Text contributed by the children of node `i` from child position `k`
/// on, in document order.
pub open spec fn spec_render_children(d: Seq<ArenaNodeView>, i: int, k: int) -> Seq<char>
    decreases d.len() - i, 0int, d[i].children.len() - k,
    when doc_wf(d) && 0 <= i < d.len()
{
    if k < 0 || k >= d[i].children.len() {
        Seq::empty()
    } else {
        spec_render_node(d, d[i].children[k]) + spec_render_children(d, i, k + 1)
    }
}

/// Skip-set enforcement: a script or style element renders to the empty
/// string, so nothing nested inside it, at any depth, ever reaches the
/// output.
pub proof fn lemma_skip_subtree_renders_nothing(d: Seq<ArenaNodeView>, i: int)
    requires
        doc_wf(d),
        0 <= i < d.len(),
        d[i].data matches NodeDataView::Element { tag, .. } && is_skip_tag(tag),
    ensures
        spec_render_node(d, i) == Seq::<char>::empty(),
{
}

fn render_node_into(d: &Doc, i: usize, out: &mut String)
    requires
        d.wf(),
        i < d.nodes@.len(),
    ensures
        final(out)@ == old(out)@ + spec_render_node(d@, i as int),
    decreases d.nodes@.len() - i,
{
    let ghost base = out@;
    proof {
        assert(d@[i as int] == d.nodes@[i as int]@);
    }
    match &d.nodes[i].data {
        NodeData::Text { text } => {
            out.append(text.as_str());
            out.append("\n");
            proof {
                reveal_strlit("\n");
                assert("\n"@ =~= seq!['\n']);
                assert((base + text@) + seq!['\n'] =~= base + (text@ + seq!['\n']));
            }
        },
        NodeData::Element { tag, id } => {
            if tag_is_skip(tag) {
                proof {
                    assert(out@ =~= base + Seq::<char>::empty());
                }
            } else {
                let block = tag_is_block(tag);
                if block {
                    out.append("\n");
                    proof {
                        reveal_strlit("\n");
                        assert("\n"@ =~= seq!['\n']);
                    }
                }
                let ghost opened = out@;
                let mut k: usize = 0;
                while k < d.nodes[i].children.len()
                    invariant
                        d.wf(),
                        i < d.nodes@.len(),
                        k <= d.nodes@[i as int].children@.len(),
                        opened + spec_render_children(d@, i as int, 0) == out@
                            + spec_render_children(d@, i as int, k as int),
                    decreases d.nodes@[i as int].children@.len() - k,
                {
                    let c: usize = d.nodes[i].children[k];
                    proof {
                        assert(d@[i as int].children[k as int] == c as int);
                        assert(i < c < d.nodes@.len());
                        assert(spec_render_children(d@, i as int, k as int) == spec_render_node(
                            d@,
                            c as int,
                        ) + spec_render_children(d@, i as int, k as int + 1));
                    }
                    let ghost before = out@;
                    render_node_into(d, c, out);
                    proof {
                        assert(before + (spec_render_node(d@, c as int) + spec_render_children(
                            d@,
                            i as int,
                            k as int + 1,
                        )) =~= (before + spec_render_node(d@, c as int)) + spec_render_children(
                            d@,
                            i as int,
                            k as int + 1,
                        ));
                    }
                    k = k + 1;
                }
                proof {
                    assert(spec_render_children(d@, i as int, k as int) =~= Seq::<char>::empty());
                    assert(out@ + Seq::<char>::empty() =~= out@);
                }
                if block {
                    out.append("\n");
                    proof {
                        reveal_strlit("\n");
                        assert("\n"@ =~= seq!['\n']);
                        assert(((base + seq!['\n']) + spec_render_children(d@, i as int, 0))
                            + seq!['\n'] =~= base + ((seq!['\n'] + spec_render_children(
                            d@,
                            i as int,
                            0,
                        )) + seq!['\n']));
                    }
                } else {
                    proof {
                        assert(base + spec_render_children(d@, i as int, 0) =~= out@);
                    }
                }
            }
        },
        NodeData::Other => {
            proof {
                assert(out@ =~= base + Seq::<char>::empty());
            }
        },
    }
}

/// A reference into a document identifying the subtree that holds the
/// content to render.
pub struct ContentRoot {
    pub doc: Doc,
    pub root: usize,
}

impl ContentRoot {
    pub open spec fn wf(&self) -> bool {
        &&& self.doc.wf()
        &&& self.root < self.doc@.len()
    }
}

/// The renderer's two output modes. `Structured` keeps blank lines as
/// paragraph structure, to be tamed afterwards by the normalizer.
/// `StrictTrim` trims every line and drops the blank ones, discarding all
/// paragraph structure; it trades fidelity for density and must be chosen
/// explicitly.
pub enum RenderMode {
    Structured,
    StrictTrim,
}

/// Renders the content subtree in the chosen mode: the raw structured
/// walk as it stands, or that walk put through the strict line cleanup.
pub fn render_with_mode(root: &ContentRoot, mode: &RenderMode) -> (r: String)
    requires
        root.wf(),
    ensures
        r@ == match mode {
            RenderMode::Structured => spec_render_node(root.doc@, root.root as int),
            RenderMode::StrictTrim => crate::lines::spec_tidy_lines(
                spec_render_node(root.doc@, root.root as int),
            ),
        },
{
    let raw = render(root);
    match mode {
        RenderMode::Structured => raw,
        RenderMode::StrictTrim => crate::lines::tidy_lines(raw.as_str()),
    }
}

/// Renders the content subtree to raw linear text, in document order.
/// Total: it cannot fail, and an empty subtree yields only its own
/// spacing, or nothing at all.
pub fn render(root: &ContentRoot) -> (r: String)
    requires
        root.wf(),
    ensures
        r@ == spec_render_node(root.doc@, root.root as int),
{
    let mut out = String::new();
    render_node_into(&root.doc, root.root, &mut out);
    proof {
        assert(Seq::<char>::empty() + spec_render_node(root.doc@, root.root as int)
            =~= spec_render_node(root.doc@, root.root as int));
    }
    out
}

} // verus!
