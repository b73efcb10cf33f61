//! Undo/redo history over full graph snapshots: a bounded undo stack with
//! first-in eviction, and a redo stack that every new checkpoint clears.
//!
//! The contracts speak over `GraphAbs`, the mathematical value of a graph
//! (node fields with port sequences, and the edge sequence), so a snapshot
//! and the graph it copied are the same abstract value.

use crate::model::{
    node_equiv, EdgeConnection, FlowNode, NodeCategory, NodeShape, NodeType, Port,
};
use vstd::prelude::*;

verus! {

/// Largest number of checkpoints the undo stack keeps; pushing beyond it
/// evicts the oldest entry.
pub const UNDO_STACK_SIZE: usize = 50;

/// The mathematical value of a node: every field, with the port lists as
/// sequences.
pub struct NodeAbs {
    pub id: String,
    pub x: i64,
    pub y: i64,
    pub width: i64,
    pub height: i64,
    pub node_type: NodeType,
    pub title: String,
    pub shape: NodeShape,
    pub border_width: i64,
    pub category: NodeCategory,
    pub input_ports: Seq<Port>,
    pub output_ports: Seq<Port>,
}

/// The abstract value of a node.
pub open spec fn node_abs(n: FlowNode) -> NodeAbs {
    NodeAbs {
        id: n.id,
        x: n.x,
        y: n.y,
        width: n.width,
        height: n.height,
        node_type: n.node_type,
        title: n.title,
        shape: n.shape,
        border_width: n.border_width,
        category: n.category,
        input_ports: n.input_ports@,
        output_ports: n.output_ports@,
    }
}

/// The abstract values of a node sequence.
pub open spec fn nodes_abs(s: Seq<FlowNode>) -> Seq<NodeAbs> {
    s.map_values(|n: FlowNode| node_abs(n))
}

/// The mathematical value of a whole graph.
pub struct GraphAbs {
    pub nodes: Seq<NodeAbs>,
    pub edges: Seq<EdgeConnection>,
}

/// The abstract value of a node vector and an edge vector together.
pub open spec fn graph_abs(nodes: Seq<FlowNode>, edges: Seq<EdgeConnection>) -> GraphAbs {
    GraphAbs { nodes: nodes_abs(nodes), edges: edges }
}

/// Two nodes are equivalent exactly when their abstract values are equal.
pub proof fn lemma_node_equiv_abs(a: FlowNode, b: FlowNode)
    ensures
        node_equiv(a, b) <==> node_abs(a) == node_abs(b),
{
}

/// A full snapshot of the graph, pushed before every structural mutation.
pub struct HistoryEntry {
    pub nodes: Vec<FlowNode>,
    pub edges: Vec<EdgeConnection>,
}

/// Every node geometrically well-formed and every edge width within the
/// canvas's line-width bound.
pub open spec fn graph_wf(nodes: Seq<FlowNode>, edges: Seq<EdgeConnection>) -> bool {
    &&& forall|i: int| 0 <= i < nodes.len() ==> (#[trigger] nodes[i]).wf()
    &&& forall|i: int| 0 <= i < edges.len() ==> 0 < (#[trigger] edges[i]).width <= 64
}

impl HistoryEntry {
    /// The abstract graph value this snapshot holds.
    pub open spec fn abs(self) -> GraphAbs {
        graph_abs(self.nodes@, self.edges@)
    }

    /// The snapshot holds a well-formed graph.
    pub open spec fn wf(self) -> bool {
        graph_wf(self.nodes@, self.edges@)
    }
}

/// The undo and redo stacks. The top of each stack is its last element.
pub struct History {
    pub undo_stack: Vec<HistoryEntry>,
    pub redo_stack: Vec<HistoryEntry>,
}

/// The abstract values held by a stack of snapshots.
pub open spec fn stack_abs(s: Seq<HistoryEntry>) -> Seq<GraphAbs> {
    s.map_values(|e: HistoryEntry| e.abs())
}

/// What saving a checkpoint does to the undo stack: the current graph is
/// appended; when the stack is full, the oldest entry (the first) leaves.
pub open spec fn save_spec(undo: Seq<GraphAbs>, cur: GraphAbs) -> Seq<GraphAbs> {
    if undo.len() < UNDO_STACK_SIZE {
        undo.push(cur)
    } else {
        undo.drop_first().push(cur)
    }
}

/// What undo does to the whole state `(undo, redo, current)`: a no-op on an
/// empty undo stack, else the top of the undo stack becomes current and the
/// old current moves to the redo stack.
pub open spec fn undo_spec(undo: Seq<GraphAbs>, redo: Seq<GraphAbs>, cur: GraphAbs) -> (
    Seq<GraphAbs>,
    Seq<GraphAbs>,
    GraphAbs,
) {
    if undo.len() == 0 {
        (undo, redo, cur)
    } else {
        (undo.drop_last(), redo.push(cur), undo.last())
    }
}

/// What redo does to the whole state: the mirror image of `undo_spec`.
pub open spec fn redo_spec(undo: Seq<GraphAbs>, redo: Seq<GraphAbs>, cur: GraphAbs) -> (
    Seq<GraphAbs>,
    Seq<GraphAbs>,
    GraphAbs,
) {
    if redo.len() == 0 {
        (undo, redo, cur)
    } else {
        (undo.push(cur), redo.drop_last(), redo.last())
    }
}

/// A deep copy of a node vector, abstractly equal to the original.
pub fn clone_nodes(v: &Vec<FlowNode>) -> (r: Vec<FlowNode>)
    ensures
        nodes_abs(r@) == nodes_abs(v@),
        r@.len() == v@.len(),
        forall|i: int| 0 <= i < v@.len() ==> node_equiv(#[trigger] r@[i], v@[i]),
{
    let mut r: Vec<FlowNode> = Vec::new();
    let mut i: usize = 0;
    while i < v.len()
        invariant
            0 <= i <= v@.len(),
            r@.len() == i,
            forall|j: int| 0 <= j < i ==> node_equiv(#[trigger] r@[j], v@[j]),
        decreases v@.len() - i,
    {
        r.push(v[i].clone());
        i += 1;
    }
    proof {
        assert forall|i: int| 0 <= i < v@.len() implies nodes_abs(r@)[i] == nodes_abs(v@)[i] by {
            lemma_node_equiv_abs(r@[i], v@[i]);
        }
        assert(nodes_abs(r@) =~= nodes_abs(v@));
    }
    r
}

/// A deep copy of an edge vector, equal to the original.
pub fn clone_edges(v: &Vec<EdgeConnection>) -> (r: Vec<EdgeConnection>)
    ensures
        r@ == v@,
{
    let mut r: Vec<EdgeConnection> = Vec::new();
    let mut i: usize = 0;
    while i < v.len()
        invariant
            0 <= i <= v@.len(),
            r@ == v@.take(i as int),
        decreases v@.len() - i,
    {
        r.push(v[i].clone());
        proof {
            assert(r@ =~= v@.take(i + 1));
        }
        i += 1;
    }
    proof {
        assert(v@.take(v@.len() as int) =~= v@);
    }
    r
}

impl History {
    /// The two stacks together never hold more than the bound: saving
    /// clears the redo stack, and undo and redo only move entries between
    /// the stacks. In particular the undo stack stays within the bound.
    pub open spec fn wf(self) -> bool {
        &&& self.undo_stack@.len() + self.redo_stack@.len() <= UNDO_STACK_SIZE
        &&& forall|i: int| 0 <= i < self.undo_stack@.len() ==> (#[trigger] self.undo_stack@[i]).wf()
        &&& forall|i: int| 0 <= i < self.redo_stack@.len() ==> (#[trigger] self.redo_stack@[i]).wf()
    }

    /// An empty history.
    pub fn new() -> (r: History)
        ensures
            r.wf(),
            r.undo_stack@.len() == 0,
            r.redo_stack@.len() == 0,
    {
        History { undo_stack: Vec::new(), redo_stack: Vec::new() }
    }

    /// Pushes a snapshot of the current graph onto the undo stack, evicting
    /// the oldest entry when the stack is full, and clears the redo stack.
    pub fn save_checkpoint(&mut self, nodes: &Vec<FlowNode>, edges: &Vec<EdgeConnection>)
        requires
            old(self).wf(),
            graph_wf(nodes@, edges@),
        ensures
            final(self).wf(),
            stack_abs(final(self).undo_stack@) == save_spec(
                stack_abs(old(self).undo_stack@),
                graph_abs(nodes@, edges@),
            ),
            final(self).redo_stack@.len() == 0,
    {
        let entry = HistoryEntry { nodes: clone_nodes(nodes), edges: clone_edges(edges) };
        assert(entry.abs() == graph_abs(nodes@, edges@));
        let ghost pre = stack_abs(self.undo_stack@);
        self.undo_stack.push(entry);
        proof {
            assert(stack_abs(self.undo_stack@) =~= pre.push(graph_abs(nodes@, edges@)));
        }
        if self.undo_stack.len() > UNDO_STACK_SIZE {
            let ghost full = stack_abs(self.undo_stack@);
            let _ = self.undo_stack.remove(0);
            proof {
                assert(stack_abs(self.undo_stack@) =~= full.drop_first());
                assert(full.drop_first() =~= pre.drop_first().push(graph_abs(nodes@, edges@)));
            }
        }
        self.redo_stack.clear();
    }

    /// Undoes one step: a no-op on an empty undo stack, else the top
    /// snapshot becomes the current graph and the old graph moves to the
    /// redo stack. Returns whether anything changed.
    pub fn undo(&mut self, nodes: &mut Vec<FlowNode>, edges: &mut Vec<EdgeConnection>) -> (did:
        bool)
        requires
            old(self).wf(),
            graph_wf(old(nodes)@, old(edges)@),
        ensures
            final(self).wf(),
            graph_wf(final(nodes)@, final(edges)@),
            did == (old(self).undo_stack@.len() > 0),
            !did ==> final(self).undo_stack@ == old(self).undo_stack@ && final(self).redo_stack@
                == old(self).redo_stack@ && *final(nodes) == *old(nodes) && *final(edges) == *old(edges),
            ({
                let (u, r, c) = undo_spec(
                    stack_abs(old(self).undo_stack@),
                    stack_abs(old(self).redo_stack@),
                    graph_abs(old(nodes)@, old(edges)@),
                );
                stack_abs(final(self).undo_stack@) == u && stack_abs(final(self).redo_stack@) == r
                    && graph_abs(final(nodes)@, final(edges)@) == c
            }),
    {
        let ghost pre_undo = stack_abs(self.undo_stack@);
        let ghost pre_redo = stack_abs(self.redo_stack@);
        let ghost pre_cur = graph_abs(nodes@, edges@);
        match self.undo_stack.pop() {
            None => {
                proof {
                    assert(stack_abs(self.undo_stack@) =~= pre_undo);
                }
                false
            },
            Some(entry) => {
                let snap = HistoryEntry { nodes: clone_nodes(nodes), edges: clone_edges(edges) };
                self.redo_stack.push(snap);
                *nodes = entry.nodes;
                *edges = entry.edges;
                proof {
                    assert(stack_abs(self.undo_stack@) =~= pre_undo.drop_last());
                    assert(stack_abs(self.redo_stack@) =~= pre_redo.push(pre_cur));
                    assert(graph_abs(nodes@, edges@) == pre_undo.last());
                }
                true
            },
        }
    }

    /// Redoes one step: the mirror image of `undo`.
    pub fn redo(&mut self, nodes: &mut Vec<FlowNode>, edges: &mut Vec<EdgeConnection>) -> (did:
        bool)
        requires
            old(self).wf(),
            graph_wf(old(nodes)@, old(edges)@),
        ensures
            final(self).wf(),
            graph_wf(final(nodes)@, final(edges)@),
            did == (old(self).redo_stack@.len() > 0),
            !did ==> final(self).undo_stack@ == old(self).undo_stack@ && final(self).redo_stack@
                == old(self).redo_stack@ && *final(nodes) == *old(nodes) && *final(edges) == *old(edges),
            ({
                let (u, r, c) = redo_spec(
                    stack_abs(old(self).undo_stack@),
                    stack_abs(old(self).redo_stack@),
                    graph_abs(old(nodes)@, old(edges)@),
                );
                stack_abs(final(self).undo_stack@) == u && stack_abs(final(self).redo_stack@) == r
                    && graph_abs(final(nodes)@, final(edges)@) == c
            }),
    {
        let ghost pre_undo = stack_abs(self.undo_stack@);
        let ghost pre_redo = stack_abs(self.redo_stack@);
        let ghost pre_cur = graph_abs(nodes@, edges@);
        match self.redo_stack.pop() {
            None => {
                proof {
                    assert(stack_abs(self.redo_stack@) =~= pre_redo);
                }
                false
            },
            Some(entry) => {
                let snap = HistoryEntry { nodes: clone_nodes(nodes), edges: clone_edges(edges) };
                self.undo_stack.push(snap);
                *nodes = entry.nodes;
                *edges = entry.edges;
                proof {
                    assert(stack_abs(self.redo_stack@) =~= pre_redo.drop_last());
                    assert(stack_abs(self.undo_stack@) =~= pre_undo.push(pre_cur));
                    assert(graph_abs(nodes@, edges@) == pre_redo.last());
                }
                true
            },
        }
    }
}

/// Undo followed by redo restores the exact pre-undo state: the same
/// current graph and the same two stacks.
pub proof fn lemma_undo_redo_round_trip(undo: Seq<GraphAbs>, redo: Seq<GraphAbs>, cur: GraphAbs)
    requires
        undo.len() > 0,
    ensures
        ({
            let (u1, r1, c1) = undo_spec(undo, redo, cur);
            redo_spec(u1, r1, c1) == (undo, redo, cur)
        }),
{
    let (u1, r1, c1) = undo_spec(undo, redo, cur);
    assert(r1.len() > 0);
    assert(u1.push(c1) =~= undo);
    assert(r1.drop_last() =~= redo);
    assert(r1.last() == cur);
}

/// Saving a checkpoint and then undoing it restores the current graph and
/// the undo stack exactly, leaving the checkpoint on the redo stack; so any
/// run of saves (within the stack bound) is unwound by as many undos.
pub proof fn lemma_save_then_undo(undo: Seq<GraphAbs>, cur: GraphAbs)
    requires
        undo.len() < UNDO_STACK_SIZE,
    ensures
        undo_spec(save_spec(undo, cur), Seq::<GraphAbs>::empty(), cur) == (
            undo,
            Seq::<GraphAbs>::empty().push(cur),
            cur,
        ),
{
    let saved = save_spec(undo, cur);
    assert(saved.len() > 0);
    assert(saved.drop_last() =~= undo);
    assert(saved.last() == cur);
}

/// The undo stack never exceeds its bound, whatever is saved.
pub proof fn lemma_undo_stack_bounded(undo: Seq<GraphAbs>, cur: GraphAbs)
    requires
        undo.len() <= UNDO_STACK_SIZE,
    ensures
        save_spec(undo, cur).len() <= UNDO_STACK_SIZE,
        undo.len() == UNDO_STACK_SIZE ==> save_spec(undo, cur) == undo.drop_first().push(cur),
{
}

} // verus!
