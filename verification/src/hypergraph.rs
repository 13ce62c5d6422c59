//! A hypergraph whose hyperedges join a set of source nodes to a set of
//! target nodes, and the set helpers that its queries rest on.
use std::collections::HashSet;
use std::marker::PhantomData;
use vstd::prelude::*;

verus! {

broadcast use vstd::std_specs::hash::group_hash_axioms;

/// Identifier of a node.
pub type NodeId = usize;

/// The abstract content of one hyperedge: its source set and its target set.
pub type EdgeView = (Set<NodeId>, Set<NodeId>);

/// Whether the hyperedge `e` joins `a` to `b`, in either direction.
pub open spec fn connects(e: EdgeView, a: NodeId, b: NodeId) -> bool {
    ||| (e.0.contains(a) && e.1.contains(b))
    ||| (e.1.contains(a) && e.0.contains(b))
}

/// Whether some hyperedge of `edges` joins `a` and `b`.
pub open spec fn adjacent(edges: Seq<EdgeView>, a: NodeId, b: NodeId) -> bool {
    exists|i: int| 0 <= i < edges.len() && #[trigger] connects(edges[i], a, b)
}

/// The nodes joined to `node` by a hyperedge of `edges`, `node` itself excluded.
pub open spec fn neighbor_set(edges: Seq<EdgeView>, node: NodeId) -> Set<NodeId> {
    Set::new(|m: NodeId| m != node && adjacent(edges, node, m))
}

/// Being neighbours is symmetric.
pub proof fn lemma_neighbors_symmetric(edges: Seq<EdgeView>, a: NodeId, b: NodeId)
    ensures
        neighbor_set(edges, a).contains(b) == neighbor_set(edges, b).contains(a),
{
    if neighbor_set(edges, a).contains(b) {
        let i = choose|i: int| 0 <= i < edges.len() && #[trigger] connects(edges[i], a, b);
        assert(connects(edges[i], b, a));
    }
    if neighbor_set(edges, b).contains(a) {
        let i = choose|i: int| 0 <= i < edges.len() && #[trigger] connects(edges[i], b, a);
        assert(connects(edges[i], a, b));
    }
}

/// The nodes joined to `node` by one of the first `k` hyperedges, `node` itself
/// included when such an edge joins it to itself.
pub open spec fn reached_by_prefix(edges: Seq<EdgeView>, node: NodeId, k: int) -> Set<NodeId> {
    Set::new(|m: NodeId| exists|i: int| 0 <= i < k && #[trigger] connects(edges[i], node, m))
}

/// Adding an element at the end of a sequence adds it to the sequence's set.
pub proof fn lemma_push_to_set(s: Seq<NodeId>, x: NodeId)
    ensures
        s.push(x).to_set() == s.to_set().insert(x),
{
    assert forall|y| s.push(x).to_set().contains(y) implies s.to_set().insert(x).contains(y) by {
        let k = choose|k: int| 0 <= k < s.push(x).len() && s.push(x)[k] == y;
        if k < s.len() {
            assert(s[k] == y);
        }
    }
    assert forall|y| s.to_set().insert(x).contains(y) implies s.push(x).to_set().contains(y) by {
        if y == x {
            assert(s.push(x)[s.len() as int] == x);
        } else {
            let k = choose|k: int| 0 <= k < s.len() && s[k] == y;
            assert(s.push(x)[k] == y);
        }
    }
    assert(s.push(x).to_set() =~= s.to_set().insert(x));
}

/// Adds every element of `s` to `n`.
pub fn extend_set(n: &mut HashSet<NodeId>, s: &HashSet<NodeId>)
    ensures
        final(n)@ == old(n)@.union(s@),
{
    let ghost init = n@;
    assert(Seq::<NodeId>::empty().to_set() =~= Set::<NodeId>::empty());
    for x in it: s.iter()
        invariant
            it.seq().unref().to_set() == s@,
            n@ == init.union(it.seq().unref().take(it.index()).to_set()),
            it.index() == it.seq().len() ==> n@ =~= init.union(s@),
    {
        let ghost pre = it.seq().unref().take(it.index());
        assert(it.seq().unref().take(it.index() + 1) == pre.push(*x));
        n.insert(*x);
        proof {
            lemma_push_to_set(pre, *x);
        }
        assert(it.index() + 1 == it.seq().len() ==> it.seq().unref().take(it.index() + 1)
            =~= it.seq().unref());
    }
}

/// Lists the elements of `s` once each, in the set's own iteration order.
pub fn set_to_vec(s: &HashSet<NodeId>) -> (v: Vec<NodeId>)
    ensures
        v@.to_set() == s@,
        v@.no_duplicates(),
{
    let mut v: Vec<NodeId> = Vec::new();
    assert(Seq::<NodeId>::empty().to_set() =~= Set::<NodeId>::empty());
    for x in it: s.iter()
        invariant
            it.seq().unref().to_set() == s@,
            it.seq().unref().no_duplicates(),
            v@ == it.seq().unref().take(it.index()),
            it.index() == it.seq().len() ==> v@.to_set() == s@,
    {
        let ghost pre = v@;
        v.push(*x);
        proof {
            lemma_push_to_set(pre, *x);
        }
        assert(v@ =~= it.seq().unref().take(it.index() + 1));
        assert(it.index() + 1 == it.seq().len() ==> v@ =~= it.seq().unref());
    }
    v
}

/// A hypergraph over `usize` node identifiers. Node payloads of type `H` are
/// accepted and not kept; each hyperedge keeps an optional payload of type `E`.
pub struct Hypergraph<H, E> {
    nodes: HashSet<NodeId>,
    edges: Vec<(HashSet<NodeId>, HashSet<NodeId>, Option<E>)>,
    next_id: NodeId,
    _h: PhantomData<H>,
}

impl<H, E> Default for Hypergraph<H, E> {
    fn default() -> (g: Self)
        ensures
            g.node_set() == Set::<NodeId>::empty(),
            g.edge_view() == Seq::<EdgeView>::empty(),
            g.edge_data() == Seq::<Option<E>>::empty(),
            g.next_node_id() == 0,
    {
        Self::new()
    }
}

impl<H, E> Hypergraph<H, E> {
    /// The nodes added so far.
    pub closed spec fn node_set(&self) -> Set<NodeId> {
        self.nodes@
    }

    /// The hyperedges added so far, in order, as (sources, targets).
    pub closed spec fn edge_view(&self) -> Seq<EdgeView> {
        self.edges@.map_values(|e: (HashSet<NodeId>, HashSet<NodeId>, Option<E>)| (e.0@, e.1@))
    }

    /// The payloads of the hyperedges, in order.
    pub closed spec fn edge_data(&self) -> Seq<Option<E>> {
        self.edges@.map_values(|e: (HashSet<NodeId>, HashSet<NodeId>, Option<E>)| e.2)
    }

    /// The identifier that the next added node receives.
    pub closed spec fn next_node_id(&self) -> nat {
        self.next_id as nat
    }

    /// An empty hypergraph.
    pub fn new() -> (g: Self)
        ensures
            g.node_set() == Set::<NodeId>::empty(),
            g.edge_view() == Seq::<EdgeView>::empty(),
            g.edge_data() == Seq::<Option<E>>::empty(),
            g.next_node_id() == 0,
    {
        let g = Hypergraph { nodes: HashSet::new(), edges: Vec::new(), next_id: 0, _h: PhantomData };
        assert(g.edge_view() =~= Seq::<EdgeView>::empty());
        assert(g.edge_data() =~= Seq::<Option<E>>::empty());
        g
    }

    /// Adds a node and returns its identifier: identifiers are handed out
    /// in order from 0.
    pub fn add_node(&mut self, _data: H) -> (id: NodeId)
        requires
            old(self).next_node_id() < usize::MAX,
        ensures
            id == old(self).next_node_id(),
            final(self).node_set() == old(self).node_set().insert(id),
            final(self).next_node_id() == old(self).next_node_id() + 1,
            final(self).edge_view() == old(self).edge_view(),
            final(self).edge_data() == old(self).edge_data(),
    {
        let id: NodeId = self.next_id;
        self.nodes.insert(id);
        self.next_id = self.next_id + 1;
        id
    }

    /// Adds a hyperedge from `sources` to `targets`.
    pub fn add_edge(&mut self, sources: HashSet<NodeId>, targets: HashSet<NodeId>, data: Option<E>)
        ensures
            final(self).edge_view() == old(self).edge_view().push((sources@, targets@)),
            final(self).edge_data() == old(self).edge_data().push(data),
            final(self).node_set() == old(self).node_set(),
            final(self).next_node_id() == old(self).next_node_id(),
    {
        let ghost se = sources@;
        let ghost te = targets@;
        let ghost d = data;
        self.edges.push((sources, targets, data));
        assert(self.edge_view() =~= old(self).edge_view().push((se, te)));
        assert(self.edge_data() =~= old(self).edge_data().push(d));
    }

    /// The nodes that share a hyperedge with `node` (on the other side of
    /// it), `node` itself excluded, each once, in no particular order.
    pub fn neighbors(&self, node: NodeId) -> (r: Vec<NodeId>)
        ensures
            r@.to_set() == neighbor_set(self.edge_view(), node),
            r@.no_duplicates(),
    {
        let ghost ev = self.edge_view();
        let mut n: HashSet<NodeId> = HashSet::new();
        let mut i: usize = 0;
        assert(n@ =~= reached_by_prefix(ev, node, 0));
        while i < self.edges.len()
            invariant
                ev == self.edge_view(),
                ev.len() == self.edges@.len(),
                0 <= i <= self.edges@.len(),
                n@ == reached_by_prefix(ev, node, i as int),
            decreases self.edges@.len() - i,
        {
            let src = &self.edges[i].0;
            let tgt = &self.edges[i].1;
            let ghost before = n@;
            assert(ev[i as int] == (src@, tgt@));
            if src.contains(&node) {
                extend_set(&mut n, tgt);
            }
            if tgt.contains(&node) {
                extend_set(&mut n, src);
            }
            assert forall|m: NodeId| n@.contains(m) == reached_by_prefix(ev, node, i + 1).contains(m) by {
                if n@.contains(m) && !before.contains(m) {
                    assert(connects(ev[i as int], node, m));
                }
                if reached_by_prefix(ev, node, i + 1).contains(m) {
                    let j = choose|j: int| 0 <= j < i + 1 && #[trigger] connects(ev[j], node, m);
                    if j < i {
                        assert(before.contains(m));
                    }
                }
            }
            assert(n@ =~= reached_by_prefix(ev, node, i + 1));
            i = i + 1;
        }
        n.remove(&node);
        assert(n@ =~= neighbor_set(ev, node));
        set_to_vec(&n)
    }
}

} // verus!
