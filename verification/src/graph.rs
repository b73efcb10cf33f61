//! Structural graph operations: node removal with cascading edge pruning
//! and re-indexing, duplicate-free edge insertion, and bulk removal by a
//! selection of indices.
//!
//! Edges reference nodes by position, so removing node `i` must drop every
//! edge touching `i` and decrement every surviving endpoint greater than
//! `i`; `reindexed` is the exact statement of that step.

use crate::model::EdgeConnection;
use vstd::prelude::*;

verus! {

/// `e` references node index `idx` at either end.
pub open spec fn edge_touches(e: EdgeConnection, idx: int) -> bool {
    e.from_node == idx || e.to_node == idx
}

/// `e` with both endpoints shifted down past a removed node index `idx`.
pub open spec fn shift_edge(e: EdgeConnection, idx: int) -> EdgeConnection {
    EdgeConnection {
        from_node: if e.from_node > idx {
            (e.from_node - 1) as usize
        } else {
            e.from_node
        },
        to_node: if e.to_node > idx {
            (e.to_node - 1) as usize
        } else {
            e.to_node
        },
        ..e
    }
}

/// The edge sequence after node `idx` is removed: edges touching `idx` are
/// dropped and the survivors' endpoints past `idx` are decremented, order
/// kept.
pub open spec fn reindexed(edges: Seq<EdgeConnection>, idx: int) -> Seq<EdgeConnection>
    decreases edges.len(),
{
    if edges.len() == 0 {
        Seq::empty()
    } else {
        let rest = reindexed(edges.drop_last(), idx);
        if edge_touches(edges.last(), idx) {
            rest
        } else {
            rest.push(shift_edge(edges.last(), idx))
        }
    }
}

/// Rewrites `edges` to `reindexed(edges, idx)`: the cascade step of
/// removing node `idx`.
pub fn remove_node_edges(edges: &mut Vec<EdgeConnection>, idx: usize)
    ensures
        final(edges)@ == reindexed(old(edges)@, idx as int),
{
    let mut kept: Vec<EdgeConnection> = Vec::new();
    let mut i: usize = 0;
    let n = edges.len();
    while i < n
        invariant
            n == edges@.len(),
            0 <= i <= n,
            kept@ == reindexed(edges@.take(i as int), idx as int),
        decreases n - i,
    {
        let e = &edges[i];
        if !(e.from_node == idx || e.to_node == idx) {
            let shifted = EdgeConnection {
                from_node: if e.from_node > idx {
                    e.from_node - 1
                } else {
                    e.from_node
                },
                to_node: if e.to_node > idx {
                    e.to_node - 1
                } else {
                    e.to_node
                },
                ..e.clone()
            };
            assert(shifted == shift_edge(edges@[i as int], idx as int));
            kept.push(shifted);
        }
        proof {
            assert(edges@.take(i + 1).drop_last() =~= edges@.take(i as int));
            assert(edges@.take(i + 1).last() == edges@[i as int]);
        }
        i += 1;
    }
    proof {
        assert(edges@.take(n as int) =~= edges@);
    }
    *edges = kept;
}

/// An edge equal to `e` in endpoints and port names already exists.
pub open spec fn has_matching_edge(edges: Seq<EdgeConnection>, e: EdgeConnection) -> bool {
    exists|i: int|
        0 <= i < edges.len() && #[trigger] edges[i].from_node == e.from_node && edges[i].to_node
            == e.to_node && edges[i].from_port@ == e.from_port@ && edges[i].to_port@ == e.to_port@
}

/// The edge sequence after asking to add `e`: unchanged when a matching
/// edge already exists, else `e` appended.
pub open spec fn add_edge_spec(edges: Seq<EdgeConnection>, e: EdgeConnection) -> Seq<
    EdgeConnection,
> {
    if has_matching_edge(edges, e) {
        edges
    } else {
        edges.push(e)
    }
}

/// Appends `e` unless an edge with the same endpoints and port names is
/// already present; returns whether `e` was appended.
pub fn add_edge_if_absent(edges: &mut Vec<EdgeConnection>, e: EdgeConnection) -> (added: bool)
    ensures
        final(edges)@ == add_edge_spec(old(edges)@, e),
        added == !has_matching_edge(old(edges)@, e),
{
    let mut i: usize = 0;
    let n = edges.len();
    while i < n
        invariant
            n == edges@.len(),
            0 <= i <= n,
            forall|j: int|
                0 <= j < i ==> !(#[trigger] edges@[j].from_node == e.from_node
                    && edges@[j].to_node == e.to_node && edges@[j].from_port@ == e.from_port@
                    && edges@[j].to_port@ == e.to_port@),
        decreases n - i,
    {
        let cur = &edges[i];
        if cur.from_node == e.from_node && cur.to_node == e.to_node && crate::model::str_eq(
            cur.from_port.as_str(),
            e.from_port.as_str(),
        ) && crate::model::str_eq(cur.to_port.as_str(), e.to_port.as_str()) {
            return false;
        }
        i += 1;
    }
    edges.push(e);
    true
}

/// Asking to add the same edge twice changes nothing the second time:
/// one matching edge results, however often the insertion is repeated.
pub proof fn lemma_add_edge_idempotent(edges: Seq<EdgeConnection>, e: EdgeConnection)
    ensures
        add_edge_spec(add_edge_spec(edges, e), e) == add_edge_spec(edges, e),
{
    let once = add_edge_spec(edges, e);
    if has_matching_edge(edges, e) {
    } else {
        assert(once[edges.len() as int] == e);
        assert(once[edges.len() as int].from_node == e.from_node);
        assert(has_matching_edge(once, e));
    }
}

/// The elements of `s` whose indices are not in `sel`, order kept.
pub open spec fn drop_indices<T>(s: Seq<T>, sel: Set<int>) -> Seq<T>
    decreases s.len(),
{
    if s.len() == 0 {
        Seq::empty()
    } else {
        let rest = drop_indices(s.drop_last(), sel);
        if sel.contains(s.len() - 1) {
            rest
        } else {
            rest.push(s.last())
        }
    }
}

/// A strictly increasing sequence of indices, all below `bound`: the shape
/// of a selection.
pub open spec fn strictly_increasing_below(sel: Seq<usize>, bound: int) -> bool {
    &&& forall|i: int, j: int| 0 <= i < j < sel.len() ==> sel[i] < sel[j]
    &&& forall|i: int| 0 <= i < sel.len() ==> #[trigger] sel[i] < bound
}

/// The index set of a selection.
pub open spec fn sel_set(sel: Seq<usize>) -> Set<int> {
    Set::new(|v: int| exists|i: int| 0 <= i < sel.len() && sel[i] == v)
}

/// Removes from `items` the elements at the indices in `sel` (a strictly
/// increasing, in-range selection), keeping the order of the rest.
pub fn remove_selected<T>(items: &mut Vec<T>, sel: &Vec<usize>)
    requires
        strictly_increasing_below(sel@, old(items)@.len() as int),
    ensures
        final(items)@ == drop_indices(old(items)@, sel_set(sel@)),
{
    let ghost orig = old(items)@;
    let mut kept: Vec<T> = Vec::new();
    let mut i: usize = 0;
    let mut s: usize = 0;
    let n = items.len();
    while i < n
        invariant
            n == orig.len(),
            items@ == orig.skip(i as int),
            0 <= i <= n,
            0 <= s <= sel@.len(),
            strictly_increasing_below(sel@, n as int),
            forall|j: int| 0 <= j < s ==> #[trigger] sel@[j] < i,
            forall|j: int| s <= j < sel@.len() ==> i <= #[trigger] sel@[j],
            kept@ == drop_indices(orig.take(i as int), sel_set(sel@)),
        decreases n - i,
    {
        let is_sel = s < sel.len() && sel[s] == i;
        proof {
            if is_sel {
                assert(sel_set(sel@).contains(i as int));
            } else {
                assert forall|j: int| 0 <= j < sel@.len() implies sel@[j] != i by {
                    if j < s {
                    } else {
                        if sel@[j] == i {
                            assert(j > s ==> sel@[s as int] < sel@[j]);
                        }
                    }
                }
                assert(!sel_set(sel@).contains(i as int));
            }
            assert(orig.take(i + 1).drop_last() =~= orig.take(i as int));
            assert(orig.take(i + 1).last() == orig[i as int]);
            assert(orig.skip(i as int)[0] == orig[i as int]);
        }
        let x = items.remove(0);
        proof {
            assert(items@ =~= orig.skip(i + 1));
        }
        if is_sel {
            s += 1;
        } else {
            kept.push(x);
        }
        i += 1;
    }
    proof {
        assert(orig.take(n as int) =~= orig);
    }
    *items = kept;
}


/// Every edge of `reindexed(edges, idx)` is the shift of some original
/// edge; in particular widths and port names survive the re-indexing.
pub proof fn lemma_reindexed_elements(edges: Seq<EdgeConnection>, idx: int)
    ensures
        forall|j: int|
            0 <= j < reindexed(edges, idx).len() ==> exists|i: int|
                0 <= i < edges.len() && #[trigger] reindexed(edges, idx)[j] == shift_edge(
                    edges[i],
                    idx,
                ),
    decreases edges.len(),
{
    if edges.len() > 0 {
        lemma_reindexed_elements(edges.drop_last(), idx);
        let rest = reindexed(edges.drop_last(), idx);
        assert forall|j: int| 0 <= j < reindexed(edges, idx).len() implies exists|i: int|
            0 <= i < edges.len() && #[trigger] reindexed(edges, idx)[j] == shift_edge(
                edges[i],
                idx,
            ) by {
            if j < rest.len() {
                let i = choose|i: int|
                    0 <= i < edges.drop_last().len() && #[trigger] rest[j] == shift_edge(
                        edges.drop_last()[i],
                        idx,
                    );
                assert(reindexed(edges, idx)[j] == shift_edge(edges[i], idx));
            } else {
                assert(reindexed(edges, idx)[j] == shift_edge(edges[edges.len() - 1], idx));
            }
        }
    }
}

/// Every element of `drop_indices(s, sel)` is an element of `s`.
pub proof fn lemma_drop_indices_elements<T>(s: Seq<T>, sel: Set<int>)
    ensures
        forall|j: int|
            0 <= j < drop_indices(s, sel).len() ==> exists|i: int|
                0 <= i < s.len() && #[trigger] drop_indices(s, sel)[j] == s[i],
    decreases s.len(),
{
    if s.len() > 0 {
        lemma_drop_indices_elements(s.drop_last(), sel);
        let rest = drop_indices(s.drop_last(), sel);
        assert forall|j: int| 0 <= j < drop_indices(s, sel).len() implies exists|i: int|
            0 <= i < s.len() && #[trigger] drop_indices(s, sel)[j] == s[i] by {
            if j < rest.len() {
                let i = choose|i: int|
                    0 <= i < s.drop_last().len() && #[trigger] rest[j] == s.drop_last()[i];
                assert(drop_indices(s, sel)[j] == s[i]);
            } else {
                assert(drop_indices(s, sel)[j] == s[s.len() - 1]);
            }
        }
    }
}

} // verus!
