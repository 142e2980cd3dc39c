//! The markup document model: an arena of nodes addressed by integer
//! indices. The arena is built from the flat, depth-annotated pre-order
//! listing that the parser hands back, so index order is document order.

use vstd::prelude::*;

verus! {

/// What one node of the parsed markup holds.
pub enum NodeData {
    /// A text node and its literal text.
    Text { text: String },
    /// An element, its tag name, and the value of its `id` attribute if
    /// it carries one.
    Element { tag: String, id: Option<String> },
    /// Anything else the parser produces (document root, comments,
    /// doctypes, processing instructions). Renders as nothing.
    Other,
}

/// Mathematical image of `NodeData`.
pub ghost enum NodeDataView {
    Text { text: Seq<char> },
    Element { tag: Seq<char>, id: Option<Seq<char>> },
    Other,
}

impl View for NodeData {
    type V = NodeDataView;

    open spec fn view(&self) -> NodeDataView {
        match self {
            NodeData::Text { text } => NodeDataView::Text { text: text@ },
            NodeData::Element { tag, id } => NodeDataView::Element {
                tag: tag@,
                id: match id {
                    Some(s) => Some(s@),
                    None => None,
                },
            },
            NodeData::Other => NodeDataView::Other,
        }
    }
}

impl NodeData {
    /// A structural copy, equal to the original in every contract.
    pub fn duplicate(&self) -> (r: NodeData)
        ensures
            r@ == self@,
    {
        match self {
            NodeData::Text { text } => NodeData::Text { text: text.clone() },
            NodeData::Element { tag, id } => NodeData::Element {
                tag: tag.clone(),
                id: match id {
                    Some(s) => Some(s.clone()),
                    None => None,
                },
            },
            NodeData::Other => NodeData::Other,
        }
    }
}

/// One entry of the parser's flat pre-order listing: the node's depth
/// below the tree root, and what the node holds.
pub struct FlatNode {
    pub depth: usize,
    pub data: NodeData,
}

/// Mathematical image of `FlatNode`.
pub ghost struct FlatNodeView {
    pub depth: int,
    pub data: NodeDataView,
}

impl View for FlatNode {
    type V = FlatNodeView;

    open spec fn view(&self) -> FlatNodeView {
        FlatNodeView { depth: self.depth as int, data: self.data@ }
    }
}

/// The view of a whole flat listing.
pub open spec fn flat_view(fs: Seq<FlatNode>) -> Seq<FlatNodeView> {
    fs.map_values(|f: FlatNode| f@)
}

/// One arena node: its data and the indices of its children, in document
/// order.
pub struct ArenaNode {
    pub data: NodeData,
    pub children: Vec<usize>,
}

/// Mathematical image of `ArenaNode`.
pub ghost struct ArenaNodeView {
    pub data: NodeDataView,
    pub children: Seq<int>,
}

impl View for ArenaNode {
    type V = ArenaNodeView;

    open spec fn view(&self) -> ArenaNodeView {
        ArenaNodeView { data: self.data@, children: self.children@.map_values(|c: usize| c as int) }
    }
}

/// A parsed markup document: the whole node arena. Index 0, when present,
/// is the tree root.
pub struct Doc {
    pub nodes: Vec<ArenaNode>,
}

impl View for Doc {
    type V = Seq<ArenaNodeView>;

    open spec fn view(&self) -> Seq<ArenaNodeView> {
        self.nodes@.map_values(|n: ArenaNode| n@)
    }
}

/// Well-formed arena: every child index points forward and stays in
/// bounds, so walking children always makes progress.
pub open spec fn doc_wf(d: Seq<ArenaNodeView>) -> bool {
    forall|i: int, k: int|
        0 <= i < d.len() && 0 <= k < d[i].children.len() ==> i < #[trigger] d[i].children[k]
            < d.len()
}

impl Doc {
    pub open spec fn wf(&self) -> bool {
        doc_wf(self@)
    }
}

/// The tree builder's running state: the arena so far, and the indices of
/// the open ancestors, outermost first.
pub ghost struct BuildState {
    pub nodes: Seq<ArenaNodeView>,
    pub stack: Seq<int>,
}

/// Folding one flat entry into the state: close ancestors deeper than the
/// entry says (clamping a malformed depth to the ancestors available),
/// attach the new node to the innermost ancestor left open, and open it.
pub open spec fn build_step(st: BuildState, f: FlatNodeView) -> BuildState {
    let depth = if 0 <= f.depth < st.stack.len() {
        f.depth
    } else if f.depth < 0 {
        0
    } else {
        st.stack.len() as int
    };
    let stack = st.stack.take(depth);
    let j = st.nodes.len() as int;
    let nodes = if stack.len() > 0 {
        let p = stack.last();
        st.nodes.update(
            p,
            ArenaNodeView { data: st.nodes[p].data, children: st.nodes[p].children.push(j) },
        )
    } else {
        st.nodes
    };
    BuildState {
        nodes: nodes.push(ArenaNodeView { data: f.data, children: Seq::empty() }),
        stack: stack.push(j),
    }
}

pub open spec fn build_from(fs: Seq<FlatNodeView>, st: BuildState) -> Seq<ArenaNodeView>
    decreases fs.len(),
{
    if fs.len() == 0 {
        st.nodes
    } else {
        build_from(fs.drop_first(), build_step(st, fs.first()))
    }
}

pub open spec fn initial_build_state() -> BuildState {
    BuildState { nodes: Seq::empty(), stack: Seq::empty() }
}

/// The arena that a flat pre-order listing describes.
pub open spec fn spec_build(fs: Seq<FlatNodeView>) -> Seq<ArenaNodeView> {
    build_from(fs, initial_build_state())
}

/// Invariant carried through the fold.
pub open spec fn build_state_ok(st: BuildState) -> bool {
    &&& doc_wf(st.nodes)
    &&& forall|q: int| 0 <= q < st.stack.len() ==> 0 <= #[trigger] st.stack[q] < st.nodes.len()
}

proof fn lemma_build_step_ok(st: BuildState, f: FlatNodeView)
    requires
        build_state_ok(st),
    ensures
        build_state_ok(build_step(st, f)),
        build_step(st, f).nodes.len() == st.nodes.len() + 1,
    decreases 0int,
{
    let st1 = build_step(st, f);
    let depth = if 0 <= f.depth < st.stack.len() {
        f.depth
    } else if f.depth < 0 {
        0int
    } else {
        st.stack.len() as int
    };
    let stack = st.stack.take(depth);
    let j = st.nodes.len() as int;
    assert forall|i: int, k: int|
        0 <= i < st1.nodes.len() && 0 <= k < st1.nodes[i].children.len() implies i
        < #[trigger] st1.nodes[i].children[k] < st1.nodes.len() by {
        if i < j {
            if stack.len() > 0 && i == stack.last() {
                assert(st1.nodes[i].children == st.nodes[i].children.push(j));
                if k < st.nodes[i].children.len() {
                    assert(st1.nodes[i].children[k] == st.nodes[i].children[k]);
                } else {
                    assert(st1.nodes[i].children[k] == j);
                }
            } else {
                assert(st1.nodes[i] == st.nodes[i]);
            }
        } else {
            assert(st1.nodes[i].children.len() == 0);
        }
    }
}

/// Builds the node arena from the parser's flat pre-order listing.
pub fn build_doc(flat: &Vec<FlatNode>) -> (d: Doc)
    ensures
        d@ == spec_build(flat_view(flat@)),
        d.wf(),
{
    let ghost fv = flat_view(flat@);
    let mut nodes: Vec<ArenaNode> = Vec::new();
    let mut stack: Vec<usize> = Vec::new();
    let mut j: usize = 0;
    proof {
        assert(fv.skip(0) =~= fv);
        assert(nodes@.map_values(|n: ArenaNode| n@) =~= Seq::<ArenaNodeView>::empty());
        assert(stack@.map_values(|u: usize| u as int) =~= Seq::<int>::empty());
    }
    while j < flat.len()
        invariant
            j <= flat.len(),
            fv == flat_view(flat@),
            fv.len() == flat@.len(),
            build_state_ok(
                BuildState {
                    nodes: nodes@.map_values(|n: ArenaNode| n@),
                    stack: stack@.map_values(|u: usize| u as int),
                },
            ),
            nodes@.len() == j,
            spec_build(fv) == build_from(
                fv.skip(j as int),
                BuildState {
                    nodes: nodes@.map_values(|n: ArenaNode| n@),
                    stack: stack@.map_values(|u: usize| u as int),
                },
            ),
        decreases flat.len() - j,
    {
        let ghost st = BuildState {
            nodes: nodes@.map_values(|n: ArenaNode| n@),
            stack: stack@.map_values(|u: usize| u as int),
        };
        let ghost rest = fv.skip(j as int);
        proof {
            assert(rest.first() == fv[j as int]);
            assert(rest.drop_first() =~= fv.skip(j as int + 1));
            assert(fv[j as int] == flat@[j as int]@);
            lemma_build_step_ok(st, rest.first());
        }
        let f = &flat[j];
        let depth: usize = if f.depth < stack.len() {
            f.depth
        } else {
            stack.len()
        };
        stack.truncate(depth);
        proof {
            assert(stack@.map_values(|u: usize| u as int) =~= st.stack.take(depth as int));
        }
        if stack.len() > 0 {
            let p: usize = stack[stack.len() - 1];
            proof {
                assert(st.stack.take(depth as int).last() == stack@[stack@.len() - 1] as int);
                assert(0 <= p < nodes@.len());
            }
            let ghost before = nodes@;
            let target = &mut nodes[p];
            target.children.push(j);
            proof {
                assert(nodes@ =~= before.update(p as int, nodes@[p as int]));
                assert(nodes@[p as int].children@.map_values(|c: usize| c as int) =~= before[
                    p as int]@.children.push(j as int));
                assert(nodes@.map_values(|n: ArenaNode| n@) =~= st.nodes.update(
                    p as int,
                    ArenaNodeView {
                        data: st.nodes[p as int].data,
                        children: st.nodes[p as int].children.push(j as int),
                    },
                ));
            }
        }
        let ghost mid_nodes = nodes@.map_values(|n: ArenaNode| n@);
        nodes.push(ArenaNode { data: f.data.duplicate(), children: Vec::new() });
        stack.push(j);
        proof {
            let st1 = build_step(st, rest.first());
            assert(nodes@.last()@.children =~= Seq::<int>::empty());
            assert(nodes@.map_values(|n: ArenaNode| n@) =~= mid_nodes.push(
                ArenaNodeView { data: flat@[j as int]@.data, children: Seq::empty() },
            ));
            assert(nodes@.map_values(|n: ArenaNode| n@) =~= st1.nodes);
            assert(stack@.map_values(|u: usize| u as int) =~= st1.stack);
        }
        j = j + 1;
    }
    proof {
        assert(fv.skip(flat@.len() as int) =~= Seq::<FlatNodeView>::empty());
    }
    Doc { nodes }
}

} // verus!
