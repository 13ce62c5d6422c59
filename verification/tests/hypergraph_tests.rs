use arkhe::hypergraph::{extend_set, set_to_vec, Hypergraph, NodeId};
use arkhe::qpl::{insert_sorted, neighbors_by_hop};
use std::collections::HashSet;

fn make_chain(n: usize) -> Hypergraph<&'static str, &'static str> {
    let mut g = Hypergraph::new();
    let mut prev = None;
    for _ in 0..n {
        let node = g.add_node("node");
        if let Some(p) = prev {
            g.add_edge(HashSet::from([p]), HashSet::from([node]), None);
        }
        prev = Some(node);
    }
    g
}

fn sorted(mut v: Vec<NodeId>) -> Vec<NodeId> {
    v.sort();
    v
}

#[test]
fn test_neighbors_by_hop_1hop_chain() {
    let g = make_chain(5);
    let hops = neighbors_by_hop(&g, 2, 1);
    assert_eq!(hops.len(), 1);
    assert_eq!(hops[0], vec![1, 3]);
}

#[test]
fn test_neighbors_by_hop_2hop_chain() {
    let g = make_chain(5);
    let hops = neighbors_by_hop(&g, 2, 2);
    assert_eq!(hops.len(), 2);
    assert_eq!(hops[0], vec![1, 3]);
    assert_eq!(hops[1], vec![0, 4]);
}

#[test]
fn test_neighbors_by_hop_boundary() {
    let g = make_chain(5);
    let hops = neighbors_by_hop(&g, 0, 2);
    assert_eq!(hops[0], vec![1]);
    assert_eq!(hops[1], vec![2]);
}

#[test]
fn test_neighbors_by_hop_isolated() {
    let mut g: Hypergraph<&str, &str> = Hypergraph::new();
    let isolated = g.add_node("iso");
    let hops = neighbors_by_hop(&g, isolated, 2);
    assert_eq!(hops.len(), 2);
    assert!(hops[0].is_empty());
    assert!(hops[1].is_empty());
}

#[test]
fn star_graph_layers_are_disjoint() {
    let mut g: Hypergraph<&str, &str> = Hypergraph::new();
    let center = g.add_node("center");
    for _ in 0..4 {
        let leaf = g.add_node("leaf");
        g.add_edge(HashSet::from([center]), HashSet::from([leaf]), None);
    }
    let hops = neighbors_by_hop(&g, center, 2);
    assert_eq!(hops, vec![vec![1, 2, 3, 4], vec![]]);
    let from_leaf = neighbors_by_hop(&g, 3, 3);
    assert_eq!(from_leaf, vec![vec![0], vec![1, 2, 4], vec![]]);
}

#[test]
fn zero_hops_gives_no_layer() {
    let g = make_chain(3);
    assert!(neighbors_by_hop(&g, 1, 0).is_empty());
}

#[test]
fn hyperedges_join_every_source_to_every_target() {
    let mut g: Hypergraph<(), u8> = Hypergraph::new();
    for _ in 0..6 {
        g.add_node(());
    }
    g.add_edge(HashSet::from([0, 1]), HashSet::from([2, 3]), Some(7));
    g.add_edge(HashSet::from([3]), HashSet::from([4, 3]), None);
    assert_eq!(sorted(g.neighbors(0)), vec![2, 3]);
    assert_eq!(sorted(g.neighbors(2)), vec![0, 1]);
    assert_eq!(sorted(g.neighbors(3)), vec![0, 1, 4]);
    assert_eq!(sorted(g.neighbors(4)), vec![3]);
    assert!(g.neighbors(5).is_empty());
    assert_eq!(neighbors_by_hop(&g, 0, 3), vec![vec![2, 3], vec![1, 4], vec![]]);
}

#[test]
fn neighbors_are_symmetric_on_a_chain() {
    let g = make_chain(4);
    for a in 0..4usize {
        for b in 0..4usize {
            assert_eq!(g.neighbors(a).contains(&b), g.neighbors(b).contains(&a));
        }
    }
}

#[test]
fn node_ids_are_handed_out_in_order() {
    let mut g: Hypergraph<u32, ()> = Hypergraph::default();
    assert_eq!(g.add_node(10), 0);
    assert_eq!(g.add_node(20), 1);
    assert_eq!(g.add_node(30), 2);
}

#[test]
fn insert_sorted_keeps_order() {
    let mut v = vec![2, 5, 9];
    insert_sorted(&mut v, 7);
    assert_eq!(v, vec![2, 5, 7, 9]);
    insert_sorted(&mut v, 1);
    assert_eq!(v, vec![1, 2, 5, 7, 9]);
    insert_sorted(&mut v, 10);
    assert_eq!(v, vec![1, 2, 5, 7, 9, 10]);
}

#[test]
fn set_helpers() {
    let mut n: HashSet<usize> = HashSet::from([1, 2]);
    extend_set(&mut n, &HashSet::from([2, 3]));
    assert_eq!(n, HashSet::from([1, 2, 3]));
    let v = set_to_vec(&n);
    assert_eq!(sorted(v), vec![1, 2, 3]);
}
