use asset_references::graph::adjacency_map::AdjacencyMap;

fn diamond() -> AdjacencyMap<char> {
    let mut map = AdjacencyMap::new();
    map.insert(None, 'A');
    map.insert(Some('A'), 'B');
    map.insert(Some('A'), 'C');
    map.insert(Some('B'), 'D');
    map.insert(Some('C'), 'D');
    map
}

#[test]
fn reverse_topological_of_a_diamond() {
    let map = diamond();
    let mut iter = map.reverse_topological();
    let mut order = Vec::new();
    while let Some(node) = iter.next() {
        order.push(*node);
    }
    assert_eq!(order, vec!['D', 'B', 'C', 'A']);
}

#[test]
fn into_reverse_topological_of_a_diamond() {
    let mut iter = diamond().into_reverse_topological();
    let mut order = Vec::new();
    while let Some(node) = iter.next() {
        order.push(node);
    }
    assert_eq!(order, vec!['D', 'B', 'C', 'A']);
}

#[test]
fn breadth_first_edges_of_a_diamond() {
    let mut iter = diamond().into_breadth_first_edges();
    let mut edges = Vec::new();
    while let Some(edge) = iter.next() {
        edges.push(edge);
    }
    assert_eq!(
        edges,
        vec![
            (None, 'A'),
            (Some('A'), 'B'),
            (Some('A'), 'C'),
            (Some('B'), 'D'),
            (Some('C'), 'D'),
        ]
    );
}

fn collect_reverse(map: &AdjacencyMap<u32>) -> Vec<u32> {
    let mut iter = map.reverse_topological();
    let mut order = Vec::new();
    while let Some(node) = iter.next() {
        order.push(*node);
    }
    order
}

fn collect_edges(map: AdjacencyMap<u32>) -> Vec<(Option<u32>, u32)> {
    let mut iter = map.into_breadth_first_edges();
    let mut edges = Vec::new();
    while let Some(edge) = iter.next() {
        edges.push(edge);
    }
    edges
}

fn graph(roots: &[u32], edges: &[(u32, u32)]) -> AdjacencyMap<u32> {
    let mut map = AdjacencyMap::new();
    for root in roots {
        map.insert(None, *root);
    }
    for (from, to) in edges {
        map.insert(Some(*from), *to);
    }
    map
}

#[test]
fn new_map_is_empty() {
    let map: AdjacencyMap<u32> = AdjacencyMap::new();
    assert!(map.roots().is_empty());
    assert!(map.get(&1).is_none());
    assert_eq!(collect_reverse(&map), Vec::<u32>::new());
    assert_eq!(collect_edges(map), vec![]);
    let default: AdjacencyMap<u32> = Default::default();
    assert!(default.roots().is_empty());
}

#[test]
fn insert_records_roots_and_successors_in_order() {
    let map = graph(&[3, 1, 3], &[(1, 5), (1, 4), (7, 1), (1, 5)]);
    assert_eq!(map.roots(), &vec![3, 1, 3]);
    assert_eq!(map.get(&1), Some(&vec![5, 4, 5]));
    assert_eq!(map.get(&7), Some(&vec![1]));
    assert_eq!(map.get(&3), None);
    assert_eq!(map.get(&5), None);
}

#[test]
fn reverse_topological_yields_children_before_their_parent() {
    // 1 -> 2 -> 4, 1 -> 3 -> 4, 4 -> 5
    let map = graph(&[1], &[(1, 2), (1, 3), (2, 4), (3, 4), (4, 5)]);
    assert_eq!(collect_reverse(&map), vec![5, 4, 2, 3, 1]);
}

#[test]
fn reverse_topological_takes_the_roots_in_order() {
    let map = graph(&[1, 2, 1], &[(2, 3), (1, 3)]);
    assert_eq!(collect_reverse(&map), vec![3, 1, 2]);
}

#[test]
fn reverse_topological_breaks_cycles_at_the_first_visit() {
    // 1 -> 2 -> 3 -> 1, 3 -> 4
    let map = graph(&[1], &[(1, 2), (2, 3), (3, 1), (3, 4)]);
    assert_eq!(collect_reverse(&map), vec![4, 3, 2, 1]);
    // a node that leads to itself
    let own = graph(&[1], &[(1, 1), (1, 2)]);
    assert_eq!(collect_reverse(&own), vec![2, 1]);
}

#[test]
fn reverse_topological_leaves_out_what_the_roots_do_not_reach() {
    let map = graph(&[1], &[(1, 2), (8, 9), (9, 1)]);
    assert_eq!(collect_reverse(&map), vec![2, 1]);
}

#[test]
fn reverse_topological_from_a_node_yields_what_is_below_it() {
    let map = graph(&[1], &[(1, 2), (1, 3), (2, 4), (3, 4), (4, 5)]);
    let mut iter = map.reverse_topological_from_node(&3);
    let mut order = Vec::new();
    while let Some(node) = iter.next() {
        order.push(*node);
    }
    assert_eq!(order, vec![5, 4, 3]);
    let mut unknown = map.reverse_topological_from_node(&42);
    assert_eq!(unknown.next(), Some(&42));
    assert_eq!(unknown.next(), None);
}

#[test]
fn iterators_stay_at_the_end() {
    let map = graph(&[1], &[]);
    let mut iter = map.reverse_topological();
    assert_eq!(iter.next(), Some(&1));
    assert_eq!(iter.next(), None);
    assert_eq!(iter.next(), None);
    let mut owned = graph(&[1], &[]).into_reverse_topological();
    assert_eq!(owned.next(), Some(1));
    assert_eq!(owned.next(), None);
    assert_eq!(owned.next(), None);
    let mut edges = graph(&[1], &[]).into_breadth_first_edges();
    assert_eq!(edges.next(), Some((None, 1)));
    assert_eq!(edges.next(), None);
    assert_eq!(edges.next(), None);
}

#[test]
fn breadth_first_edges_go_level_by_level() {
    // 1 -> 2, 1 -> 3, 2 -> 4, 3 -> 5, 4 -> 6
    let map = graph(&[1], &[(1, 2), (1, 3), (2, 4), (3, 5), (4, 6)]);
    assert_eq!(
        collect_edges(map),
        vec![
            (None, 1),
            (Some(1), 2),
            (Some(1), 3),
            (Some(2), 4),
            (Some(3), 5),
            (Some(4), 6),
        ]
    );
}

#[test]
fn breadth_first_edges_expand_a_node_once() {
    // 1 -> 2 -> 1, 1 -> 2 again
    let map = graph(&[1, 1], &[(1, 2), (2, 1), (1, 2)]);
    assert_eq!(
        collect_edges(map),
        vec![
            (None, 1),
            (None, 1),
            (Some(1), 2),
            (Some(1), 2),
            (Some(2), 1),
        ]
    );
}

#[test]
fn breadth_first_edges_lead_to_each_node_of_a_tree_once() {
    let map = graph(&[1, 7], &[(1, 2), (1, 3), (3, 4), (7, 8)]);
    let edges = collect_edges(map);
    let mut targets: Vec<u32> = edges.iter().map(|edge| edge.1).collect();
    assert_eq!(targets, vec![1, 7, 2, 3, 8, 4]);
    targets.sort();
    targets.dedup();
    assert_eq!(targets.len(), 6);
}

#[test]
fn nodes_may_be_strings() {
    let mut map: AdjacencyMap<String> = AdjacencyMap::new();
    map.insert(None, "a".to_string());
    map.insert(Some("a".to_string()), "b".to_string());
    map.insert(Some("b".to_string()), "a".to_string());
    let mut iter = map.reverse_topological();
    assert_eq!(iter.next(), Some(&"b".to_string()));
    assert_eq!(iter.next(), Some(&"a".to_string()));
    assert_eq!(iter.next(), None);
    let mut owned = map.clone().into_reverse_topological();
    assert_eq!(owned.next(), Some("b".to_string()));
    assert_eq!(owned.next(), Some("a".to_string()));
    assert_eq!(owned.next(), None);
    let mut edges = map.into_breadth_first_edges();
    assert_eq!(edges.next(), Some((None, "a".to_string())));
    assert_eq!(edges.next(), Some((Some("a".to_string()), "b".to_string())));
    assert_eq!(edges.next(), Some((Some("b".to_string()), "a".to_string())));
    assert_eq!(edges.next(), None);
}

#[test]
fn reverse_topological_puts_the_target_of_an_edge_first() {
    let edges = [(1, 2), (1, 3), (2, 4), (3, 4), (4, 5), (3, 6), (6, 2)];
    let map = graph(&[1], &edges);
    let order = collect_reverse(&map);
    let place = |node: u32| order.iter().position(|other| *other == node).unwrap();
    for (from, to) in edges {
        assert!(place(to) < place(from), "{} -> {}", from, to);
    }
    assert_eq!(order.len(), 6);
}

#[test]
fn parts_of_a_map_make_the_same_map() {
    let map = graph(&[1, 2], &[(1, 3), (2, 3), (3, 4)]);
    let order = collect_reverse(&map);
    let (adjacency_map, roots) = map.into_parts();
    assert_eq!(roots, vec![1, 2]);
    assert_eq!(adjacency_map.get(&1), Some(&vec![3]));
    assert_eq!(adjacency_map.len(), 3);
    let again = AdjacencyMap::from_parts(adjacency_map, roots);
    assert_eq!(collect_reverse(&again), order);
    assert_eq!(order, vec![4, 3, 1, 2]);
}
