//! Breadth-first grouping of a node's surroundings by hop distance, the
//! integer part of the hop-aware neighbourhood aggregation.
use crate::hypergraph::{neighbor_set, EdgeView, Hypergraph, NodeId};
use std::collections::HashSet;
use vstd::prelude::*;

verus! {

broadcast use vstd::std_specs::hash::group_hash_axioms;

/// Every element of `s` is smaller than every later one.
pub open spec fn strictly_sorted(s: Seq<NodeId>) -> bool {
    forall|i: int, j: int| 0 <= i < j < s.len() ==> s[i] < s[j]
}

/// The nodes that are neighbours of some node of `frontier`.
pub open spec fn expand(edges: Seq<EdgeView>, frontier: Set<NodeId>) -> Set<NodeId> {
    Set::new(|m: NodeId| exists|f: NodeId| frontier.contains(f) && #[trigger] neighbor_set(edges, f).contains(m))
}

/// Breadth-first search from `start`, after `k` rounds: the set of nodes
/// visited so far, and the nodes first reached in round `k`.
pub open spec fn bfs(edges: Seq<EdgeView>, start: NodeId, k: nat) -> (Set<NodeId>, Set<NodeId>)
    decreases k,
{
    if k == 0 {
        (set![start], set![start])
    } else {
        let prev = bfs(edges, start, (k - 1) as nat);
        let next = expand(edges, prev.1).difference(prev.0);
        (prev.0.union(next), next)
    }
}

/// The nodes at hop distance exactly `k` from `start`.
pub open spec fn hop_layer(edges: Seq<EdgeView>, start: NodeId, k: nat) -> Set<NodeId> {
    bfs(edges, start, k).1
}

/// The neighbours of the first `j` nodes of `frontier`.
pub open spec fn expand_prefix(edges: Seq<EdgeView>, frontier: Seq<NodeId>, j: int) -> Set<NodeId> {
    Set::new(|m: NodeId| exists|i: int| 0 <= i < j && #[trigger] neighbor_set(edges, frontier[i]).contains(m))
}

/// Inserts `x` into the strictly sorted `v` at its place.
pub fn insert_sorted(v: &mut Vec<NodeId>, x: NodeId)
    requires
        strictly_sorted(old(v)@),
        !old(v)@.contains(x),
    ensures
        strictly_sorted(final(v)@),
        final(v)@.to_set() == old(v)@.to_set().insert(x),
        final(v)@.len() == old(v)@.len() + 1,
{
    let mut p: usize = 0;
    while p < v.len() && v[p] < x
        invariant
            0 <= p <= v@.len(),
            forall|i: int| 0 <= i < p ==> v@[i] < x,
        decreases v@.len() - p,
    {
        p = p + 1;
    }
    let ghost before = v@;
    assert(p < v@.len() ==> v@[p as int] > x) by {
        if p < v@.len() {
            assert(v@[p as int] != x);
        }
    }
    v.insert(p, x);
    assert(v@ =~= before.insert(p as int, x));
    assert forall|y: NodeId| v@.to_set().contains(y) == before.to_set().insert(x).contains(y) by {
        if v@.to_set().contains(y) {
            let k = choose|k: int| 0 <= k < v@.len() && v@[k] == y;
            if k < p {
                assert(before[k] == y);
            } else if k > p {
                assert(before[k - 1] == y);
            }
        }
        if before.to_set().contains(y) {
            let k = choose|k: int| 0 <= k < before.len() && before[k] == y;
            if k < p {
                assert(v@[k] == y);
            } else {
                assert(v@[k + 1] == y);
            }
        }
        if y == x {
            assert(v@[p as int] == x);
        }
    }
    assert(v@.to_set() =~= before.to_set().insert(x));
}

/// The nodes around `node` grouped by hop distance: element `k` of the
/// result holds, in increasing order, the nodes at distance exactly `k + 1`
/// from `node`; `node` itself is in none of them.
pub fn neighbors_by_hop<H, E>(graph: &Hypergraph<H, E>, node: NodeId, hops: usize) -> (r: Vec<Vec<NodeId>>)
    ensures
        r@.len() == hops,
        forall|k: int| 0 <= k < hops ==> strictly_sorted(#[trigger] r@[k]@),
        forall|k: int| 0 <= k < hops ==> (#[trigger] r@[k]@).to_set() == hop_layer(graph.edge_view(), node, (k + 1) as nat),
{
    let ghost ev = graph.edge_view();
    let mut result: Vec<Vec<NodeId>> = Vec::new();
    let mut visited: HashSet<NodeId> = HashSet::new();
    visited.insert(node);
    let mut frontier: Vec<NodeId> = Vec::new();
    frontier.push(node);
    assert(visited@ =~= set![node]);
    assert(frontier@.to_set() =~= set![node]) by {
        assert(frontier@[0] == node);
    }
    let mut level: usize = 0;
    while level < hops
        invariant
            ev == graph.edge_view(),
            0 <= level <= hops,
            result@.len() == level,
            forall|k: int| 0 <= k < level ==> strictly_sorted(#[trigger] result@[k]@),
            forall|k: int| 0 <= k < level ==> (#[trigger] result@[k]@).to_set() == hop_layer(ev, node, (k + 1) as nat),
            visited@ == bfs(ev, node, level as nat).0,
            frontier@.to_set() == bfs(ev, node, level as nat).1,
        decreases hops - level,
    {
        let ghost vis0 = visited@;
        let mut next: Vec<NodeId> = Vec::new();
        let mut j: usize = 0;
        assert(next@.to_set() =~= expand_prefix(ev, frontier@, 0).difference(vis0));
        assert(visited@ =~= vis0.union(next@.to_set()));
        while j < frontier.len()
            invariant
                ev == graph.edge_view(),
                0 <= j <= frontier@.len(),
                strictly_sorted(next@),
                next@.to_set() == expand_prefix(ev, frontier@, j as int).difference(vis0),
                visited@ == vis0.union(next@.to_set()),
            decreases frontier@.len() - j,
        {
            let nb = graph.neighbors(frontier[j]);
            let ghost reach0 = expand_prefix(ev, frontier@, j as int);
            let mut t: usize = 0;
            assert(next@.to_set() =~= reach0.union(nb@.take(0).to_set()).difference(vis0)) by {
                assert(nb@.take(0).to_set() =~= Set::<NodeId>::empty());
            }
            while t < nb.len()
                invariant
                    0 <= t <= nb@.len(),
                    strictly_sorted(next@),
                    next@.to_set() == reach0.union(nb@.take(t as int).to_set()).difference(vis0),
                    visited@ == vis0.union(next@.to_set()),
                decreases nb@.len() - t,
            {
                let m: NodeId = nb[t];
                let ghost before = next@;
                proof {
                    crate::hypergraph::lemma_push_to_set(nb@.take(t as int), m);
                    assert(nb@.take(t + 1) =~= nb@.take(t as int).push(m));
                }
                if !visited.contains(&m) {
                    visited.insert(m);
                    insert_sorted(&mut next, m);
                    assert(next@.to_set() =~= reach0.union(nb@.take(t + 1).to_set()).difference(vis0));
                    assert(visited@ =~= vis0.union(next@.to_set()));
                } else {
                    assert(next@.to_set() =~= reach0.union(nb@.take(t + 1).to_set()).difference(vis0));
                }
                t = t + 1;
            }
            assert(nb@.take(nb@.len() as int) =~= nb@);
            assert(expand_prefix(ev, frontier@, j + 1) =~= reach0.union(nb@.to_set())) by {
                assert forall|m: NodeId| #![auto] expand_prefix(ev, frontier@, j + 1).contains(m)
                    implies reach0.union(nb@.to_set()).contains(m) by {
                    let i = choose|i: int| 0 <= i < j + 1 && #[trigger] neighbor_set(ev, frontier@[i]).contains(m);
                    if i == j {
                        assert(nb@.to_set().contains(m));
                    }
                }
                assert forall|m: NodeId| #![auto] reach0.union(nb@.to_set()).contains(m)
                    implies expand_prefix(ev, frontier@, j + 1).contains(m) by {
                    if nb@.to_set().contains(m) {
                        assert(neighbor_set(ev, frontier@[j as int]).contains(m));
                    } else {
                        let i = choose|i: int| 0 <= i < j && #[trigger] neighbor_set(ev, frontier@[i]).contains(m);
                        assert(neighbor_set(ev, frontier@[i]).contains(m));
                    }
                }
            }
            j = j + 1;
        }
        assert(expand_prefix(ev, frontier@, frontier@.len() as int) =~= expand(ev, frontier@.to_set())) by {
            assert forall|m: NodeId| #![auto] expand(ev, frontier@.to_set()).contains(m)
                implies expand_prefix(ev, frontier@, frontier@.len() as int).contains(m) by {
                let f = choose|f: NodeId| frontier@.to_set().contains(f) && #[trigger] neighbor_set(ev, f).contains(m);
                let i = choose|i: int| 0 <= i < frontier@.len() && frontier@[i] == f;
                assert(neighbor_set(ev, frontier@[i]).contains(m));
            }
            assert forall|m: NodeId| #![auto] expand_prefix(ev, frontier@, frontier@.len() as int).contains(m)
                implies expand(ev, frontier@.to_set()).contains(m) by {
                let i = choose|i: int| 0 <= i < frontier@.len() && #[trigger] neighbor_set(ev, frontier@[i]).contains(m);
                assert(frontier@.to_set().contains(frontier@[i]));
            }
        }
        let ghost lv = level;
        let layer = next.clone();
        assert(layer@ =~= next@);
        result.push(layer);
        frontier = next;
        level = level + 1;
    }
    result
}

/// The nodes visited after `a` rounds are still visited after `b >= a` rounds,
/// and each round's new nodes are among the visited ones.
proof fn lemma_visited_grows(edges: Seq<EdgeView>, start: NodeId, a: nat, b: nat)
    requires
        a <= b,
    ensures
        bfs(edges, start, a).0.subset_of(bfs(edges, start, b).0),
        bfs(edges, start, a).1.subset_of(bfs(edges, start, a).0),
    decreases b - a,
{
    if a < b {
        lemma_visited_grows(edges, start, a, (b - 1) as nat);
    }
}

/// The hop layers are pairwise disjoint and none of them, past distance 0,
/// holds the start node.
pub proof fn lemma_hop_layers_disjoint(edges: Seq<EdgeView>, start: NodeId, a: nat, b: nat)
    requires
        a < b,
    ensures
        hop_layer(edges, start, a).disjoint(hop_layer(edges, start, b)),
        !hop_layer(edges, start, b).contains(start),
{
    lemma_visited_grows(edges, start, a, (b - 1) as nat);
    lemma_visited_grows(edges, start, 0, (b - 1) as nat);
}

/// Every node at distance `k + 1` is a neighbour of a node at distance `k`.
pub proof fn lemma_hop_layer_reached_from_previous(edges: Seq<EdgeView>, start: NodeId, k: nat, m: NodeId)
    requires
        hop_layer(edges, start, k + 1).contains(m),
    ensures
        exists|f: NodeId| hop_layer(edges, start, k).contains(f) && #[trigger] neighbor_set(edges, f).contains(m),
{
    assert(bfs(edges, start, k + 1).1 == expand(edges, bfs(edges, start, k).1).difference(bfs(edges, start, k).0));
}

/// Every neighbour of a node at distance `k` is at distance at most `k + 1`.
pub proof fn lemma_hop_layer_complete(edges: Seq<EdgeView>, start: NodeId, k: nat, f: NodeId, m: NodeId)
    requires
        hop_layer(edges, start, k).contains(f),
        neighbor_set(edges, f).contains(m),
    ensures
        exists|j: nat| j <= k + 1 && #[trigger] hop_layer(edges, start, j).contains(m),
{
    lemma_visited_in_some_layer(edges, start, k + 1, m);
}

/// Every visited node lies in the layer of some round.
proof fn lemma_visited_in_some_layer(edges: Seq<EdgeView>, start: NodeId, k: nat, m: NodeId)
    requires
        bfs(edges, start, k).0.contains(m) || (k > 0 && expand(edges, bfs(edges, start, (k - 1) as nat).1).contains(m)),
    ensures
        exists|j: nat| j <= k && #[trigger] hop_layer(edges, start, j).contains(m),
    decreases k,
{
    if k == 0 {
        assert(hop_layer(edges, start, 0).contains(m));
    } else {
        let prev = bfs(edges, start, (k - 1) as nat);
        if prev.0.contains(m) {
            lemma_visited_in_some_layer(edges, start, (k - 1) as nat, m);
            let j = choose|j: nat| j <= k - 1 && #[trigger] hop_layer(edges, start, j).contains(m);
            assert(hop_layer(edges, start, j).contains(m));
        } else {
            assert(hop_layer(edges, start, k).contains(m));
        }
    }
}

} // verus!
