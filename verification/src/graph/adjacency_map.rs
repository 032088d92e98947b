//! A graph store that records the adjacency of the nodes it is given.

use std::collections::{HashMap, HashSet, VecDeque};
use std::hash::Hash;
use vstd::pervasive::strictly_cloned;
use vstd::prelude::*;
use vstd::std_specs::hash::obeys_key_model;
use crate::graph::order::{
    breadth_first, child_edges, clones_faithfully, lemma_post_order_all_unfold,
    lemma_visit_decreases, post_order, post_order_all, root_edges, unvisited, Graph,
};

verus! {

broadcast use vstd::std_specs::hash::group_hash_axioms;

/// A directed graph, recorded as it is produced: for every node that an edge
/// starts from its successors, and the roots, both in the order in which
/// they were inserted.
#[derive(Debug, Clone)]
pub struct AdjacencyMap<T> where T: Eq + Hash + Clone {
    adjacency_map: HashMap<T, Vec<T>>,
    roots: Vec<T>,
}

/// The successor lists of a stored map, as sequences.
pub open spec fn edges_of<T>(stored: Map<T, Vec<T>>) -> Map<T, Seq<T>> {
    Map::new(|node: T| stored.contains_key(node), |node: T| stored[node]@)
}

impl<T> View for AdjacencyMap<T> where T: Eq + Hash + Clone {
    type V = Graph<T>;

    closed spec fn view(&self) -> Graph<T> {
        Graph { edges: edges_of(self.adjacency_map@), roots: self.roots@ }
    }
}

impl<T> AdjacencyMap<T> where T: Eq + Hash + Clone {
    /// The map without nodes.
    pub fn new() -> (map: Self)
        ensures
            map@ == Graph::<T>::empty(),
    {
        let map = Self { adjacency_map: HashMap::new(), roots: Vec::new() };
        assert(map@.edges =~= Map::<T, Seq<T>>::empty());
        map
    }

    /// The map that holds the given successors and roots.
    pub fn from_parts(adjacency_map: HashMap<T, Vec<T>>, roots: Vec<T>) -> (map: Self)
        ensures
            map@ == (Graph { edges: edges_of(adjacency_map@), roots: roots@ }),
    {
        Self { adjacency_map, roots }
    }

    /// The successors and the roots that the map holds.
    pub fn into_parts(self) -> (parts: (HashMap<T, Vec<T>>, Vec<T>))
        ensures
            self@ == (Graph { edges: edges_of(parts.0@), roots: parts.1@ }),
    {
        (self.adjacency_map, self.roots)
    }

    /// A stored graph has finitely many nodes with successors, as the laws of
    /// the iteration orders ask.
    pub proof fn lemma_finite(&self)
        ensures
            self@.edges.dom().finite(),
    {
        assert(self@.edges.dom() =~= self.adjacency_map@.dom());
    }

    /// The roots, in the order in which they were inserted.
    pub fn roots(&self) -> (roots: &Vec<T>)
        ensures
            roots@ == self@.roots,
    {
        &self.roots
    }

    /// The successors of `node`, in the order in which they were inserted;
    /// `None` for a node that no edge starts from.
    pub fn get(&self, node: &T) -> (children: Option<&Vec<T>>)
        requires
            obeys_key_model::<T>(),
        ensures
            match children {
                Some(list) => self@.edges.contains_key(*node) && list@ == self@.edges[*node],
                None => !self@.edges.contains_key(*node),
            },
    {
        self.adjacency_map.get(node)
    }

    /// Records `node` as a successor of `from`, or as a root when there is no
    /// `from`.
    pub fn insert(&mut self, from: Option<T>, node: T)
        requires
            obeys_key_model::<T>(),
        ensures
            final(self)@ == old(self)@.inserted(from, node),
    {
        match from {
            Some(origin) => {
                let mut children = match self.adjacency_map.remove(&origin) {
                    Some(list) => list,
                    None => Vec::with_capacity(1),
                };
                children.push(node);
                self.adjacency_map.insert(origin, children);
                assert(self@.edges =~= old(self)@.inserted(from, node).edges);
            },
            None => {
                self.roots.push(node);
            },
        }
    }
}

impl<T> AdjacencyMap<T> where T: Eq + Hash + Clone {
    /// Turns the map into the stream of the nodes that the roots reach, in
    /// reverse topological order.
    pub fn into_reverse_topological(self) -> (iter: IntoReverseTopologicalIter<T>)
        ensures
            iter@ == self@.reverse_topological(),
    {
        let ghost roots = self.roots@;
        let mut rest = self.roots;
        let mut stack: Vec<(ReverseTopologicalPass, T)> = Vec::new();
        loop
            invariant
                rest@ == roots.subrange(0, rest.len() as int),
                rest.len() <= roots.len(),
                stack@ == entering(roots.subrange(rest.len() as int, roots.len() as int)),
            ensures
                stack@ == entering(roots),
            decreases rest.len(),
        {
            match rest.pop() {
                Some(root) => {
                    stack.push((ReverseTopologicalPass::Pre, root));
                },
                None => {
                    break ;
                },
            }
        }
        let iter = IntoReverseTopologicalIter {
            adjacency_map: self.adjacency_map,
            stack,
            visited: HashSet::new(),
        };
        proof {
            assert(self@.edges.dom() =~= self.adjacency_map@.dom());
            lemma_drain_roots(self@.edges, self@.roots);
        }
        iter
    }

    /// Turns the map into the stream of the edges that the roots reach, in
    /// breadth-first order; a root comes as an edge from nowhere.
    pub fn into_breadth_first_edges(self) -> (iter: IntoBreadthFirstEdges<T>)
        ensures
            iter@ == self@.breadth_first_edges(),
    {
        let ghost roots = self.roots@;
        let mut rest = self.roots;
        let mut queue: VecDeque<(Option<T>, T)> = VecDeque::new();
        loop
            invariant
                rest@ == roots.subrange(0, rest.len() as int),
                rest.len() <= roots.len(),
                queue@ == root_edges(roots.subrange(rest.len() as int, roots.len() as int)),
            ensures
                queue@ == root_edges(roots),
            decreases rest.len(),
        {
            match rest.pop() {
                Some(root) => {
                    queue.push_front((None, root));
                },
                None => {
                    break ;
                },
            }
        }
        IntoBreadthFirstEdges { adjacency_map: self.adjacency_map, queue, visited: HashSet::new() }
    }

    /// The stream of the nodes that the roots reach, in reverse topological
    /// order.
    pub fn reverse_topological(&self) -> (iter: ReverseTopologicalIter<'_, T>)
        ensures
            iter@ == self@.reverse_topological(),
    {
        let stack = entering_stack(&self.roots);
        proof {
            assert(self@.edges.dom() =~= self.adjacency_map@.dom());
            lemma_drain_roots(self@.edges, self@.roots);
        }
        ReverseTopologicalIter { adjacency_map: &self.adjacency_map, stack, visited: HashSet::new() }
    }

    /// The stream of the nodes that `node` reaches, in reverse topological
    /// order.
    pub fn reverse_topological_from_node<'graph>(&'graph self, node: &'graph T) -> (iter:
        ReverseTopologicalIter<'graph, T>)
        ensures
            iter@ == self@.reverse_topological_from(*node),
    {
        let mut stack: Vec<(ReverseTopologicalPass, &'graph T)> = Vec::new();
        stack.push((ReverseTopologicalPass::Pre, node));
        proof {
            let below = post_order(self@.edges, *node, Set::empty());
            let pending = nodes_of(stack@);
            assert(below.0 + drain(self@.edges, pending.drop_last(), below.1) =~= below.0);
        }
        ReverseTopologicalIter { adjacency_map: &self.adjacency_map, stack, visited: HashSet::new() }
    }
}

/// The stack on which the given roots are to be entered, the first of them
/// first.
fn entering_stack<'graph, T>(roots: &'graph Vec<T>) -> (stack: Vec<
    (ReverseTopologicalPass, &'graph T),
>) where T: Eq + Hash + Clone
    ensures
        nodes_of(stack@) == entering(roots@),
{
    let mut stack: Vec<(ReverseTopologicalPass, &'graph T)> = Vec::new();
    let mut i: usize = roots.len();
    while i > 0
        invariant
            i <= roots.len(),
            nodes_of(stack@) == entering(roots@.subrange(i as int, roots.len() as int)),
        decreases i,
    {
        let ghost before = nodes_of(stack@);
        i -= 1;
        stack.push((ReverseTopologicalPass::Pre, &roots[i]));
        assert(nodes_of(stack@) =~= before.push((ReverseTopologicalPass::Pre, roots[i as int])));
    }
    stack
}

/// The nodes that a stack of borrowed nodes holds.
spec fn nodes_of<T>(stack: Seq<(ReverseTopologicalPass, &T)>) -> Seq<(ReverseTopologicalPass, T)> {
    Seq::new(stack.len(), |i: int| (stack[i].0, *stack[i].1))
}

/// Entering the roots on an empty stack yields the traversal below them.
proof fn lemma_drain_roots<T>(edges: Map<T, Seq<T>>, roots: Seq<T>)
    requires
        edges.dom().finite(),
    ensures
        drain(edges, entering(roots), Set::empty()) == post_order_all(edges, roots, Set::empty()).0,
{
    lemma_drain_entering(edges, Seq::empty(), roots, Set::empty());
}

/// The nodes of a graph that it owns, one by one in reverse topological
/// order.
pub struct IntoReverseTopologicalIter<T> where T: Eq + Hash + Clone {
    adjacency_map: HashMap<T, Vec<T>>,
    stack: Vec<(ReverseTopologicalPass, T)>,
    visited: HashSet<T>,
}

impl<T> View for IntoReverseTopologicalIter<T> where T: Eq + Hash + Clone {
    type V = Seq<T>;

    /// The nodes that are still to come, in order.
    closed spec fn view(&self) -> Seq<T> {
        drain(edges_of(self.adjacency_map@), self.stack@, self.visited@)
    }
}

impl<T> IntoReverseTopologicalIter<T> where T: Eq + Hash + Clone {
    /// Yields the next node, or `None` once every node has been yielded.
    pub fn next(&mut self) -> (next: Option<T>)
        requires
            obeys_key_model::<T>(),
            clones_faithfully::<T>(),
        ensures
            match next {
                Some(node) => old(self)@.len() > 0 && node == old(self)@[0] && final(self)@ == old(
                    self,
                )@.drop_first(),
                None => old(self)@.len() == 0 && final(self)@.len() == 0,
            },
    {
        next_in_post_order(&self.adjacency_map, &mut self.stack, &mut self.visited)
    }
}

/// The nodes of a graph that it borrows, one by one in reverse topological
/// order.
pub struct ReverseTopologicalIter<'graph, T> where T: Eq + Hash + Clone {
    adjacency_map: &'graph HashMap<T, Vec<T>>,
    stack: Vec<(ReverseTopologicalPass, &'graph T)>,
    visited: HashSet<T>,
}

impl<'graph, T> View for ReverseTopologicalIter<'graph, T> where T: Eq + Hash + Clone {
    type V = Seq<T>;

    /// The nodes that are still to come, in order.
    closed spec fn view(&self) -> Seq<T> {
        drain(edges_of(self.adjacency_map@), nodes_of(self.stack@), self.visited@)
    }
}

impl<'graph, T> ReverseTopologicalIter<'graph, T> where T: Eq + Hash + Clone {
    /// Yields the next node, or `None` once every node has been yielded.
    pub fn next(&mut self) -> (next: Option<&'graph T>)
        requires
            obeys_key_model::<T>(),
            clones_faithfully::<T>(),
        ensures
            match next {
                Some(node) => old(self)@.len() > 0 && *node == old(self)@[0] && final(self)@
                    == old(self)@.drop_first(),
                None => old(self)@.len() == 0 && final(self)@.len() == 0,
            },
    {
        let adjacency_map: &'graph HashMap<T, Vec<T>> = self.adjacency_map;
        let ghost edges = edges_of(adjacency_map@);
        let ghost pending = self@;
        assert(edges.dom() =~= adjacency_map@.dom());
        loop
            invariant
                obeys_key_model::<T>(),
                clones_faithfully::<T>(),
                self.adjacency_map == adjacency_map,
                edges == edges_of(adjacency_map@),
                edges.dom().finite(),
                drain(edges, nodes_of(self.stack@), self.visited@) == pending,
                pending == old(self)@,
            decreases unvisited(edges, self.visited@), self.stack.len(),
        {
            let ghost stack_before = nodes_of(self.stack@);
            let ghost visited_before = self.visited@;
            let (pass, current) = match self.stack.pop() {
                Some(entry) => entry,
                None => {
                    return None;
                },
            };
            let ghost rest = nodes_of(self.stack@);
            assert(rest =~= stack_before.drop_last());
            match pass {
                ReverseTopologicalPass::Post => {
                    return Some(current);
                },
                ReverseTopologicalPass::Pre => {
                    if self.visited.contains(current) {
                        continue ;
                    }
                    self.visited.insert(clone_node(current));
                    match adjacency_map.get(current) {
                        None => {
                            return Some(current);
                        },
                        Some(neighbors) => {
                            let ghost base = rest.push((ReverseTopologicalPass::Post, *current));
                            self.stack.push((ReverseTopologicalPass::Post, current));
                            let mut i: usize = neighbors.len();
                            while i > 0
                                invariant
                                    i <= neighbors.len(),
                                    self.adjacency_map == adjacency_map,
                                    self.visited@ == visited_before.insert(*current),
                                    nodes_of(self.stack@) == base + entering(
                                        neighbors@.subrange(i as int, neighbors.len() as int),
                                    ),
                                decreases i,
                            {
                                let ghost before = nodes_of(self.stack@);
                                i -= 1;
                                self.stack.push((ReverseTopologicalPass::Pre, &neighbors[i]));
                                assert(nodes_of(self.stack@) =~= before.push(
                                    (ReverseTopologicalPass::Pre, neighbors[i as int]),
                                ));
                            }
                            proof {
                                assert(neighbors@.subrange(0, neighbors.len() as int)
                                    =~= neighbors@);
                                lemma_drain_entering(edges, base, neighbors@, self.visited@);
                                lemma_visit_decreases(edges, *current, visited_before);
                                assert(base.drop_last() =~= rest);
                            }
                        },
                    }
                },
            }
        }
    }
}

/// The edges of a graph that it owns, one by one in breadth-first order.
pub struct IntoBreadthFirstEdges<T> where T: Eq + Hash + Clone {
    adjacency_map: HashMap<T, Vec<T>>,
    queue: VecDeque<(Option<T>, T)>,
    visited: HashSet<T>,
}

impl<T> View for IntoBreadthFirstEdges<T> where T: Eq + Hash + Clone {
    type V = Seq<(Option<T>, T)>;

    /// The edges that are still to come, in order.
    closed spec fn view(&self) -> Seq<(Option<T>, T)> {
        breadth_first(edges_of(self.adjacency_map@), self.queue@, self.visited@)
    }
}

impl<T> IntoBreadthFirstEdges<T> where T: Eq + Hash + Clone {
    /// Yields the next edge, as the parent (none for a root) and the node, or
    /// `None` once every edge has been yielded.
    pub fn next(&mut self) -> (next: Option<(Option<T>, T)>)
        requires
            obeys_key_model::<T>(),
            clones_faithfully::<T>(),
        ensures
            match next {
                Some(edge) => old(self)@.len() > 0 && edge == old(self)@[0] && final(self)@ == old(
                    self,
                )@.drop_first(),
                None => old(self)@.len() == 0 && final(self)@.len() == 0,
            },
    {
        let ghost edges = edges_of(self.adjacency_map@);
        let ghost visited_before = self.visited@;
        assert(edges.dom() =~= self.adjacency_map@.dom());
        let (parent, current) = match self.queue.pop_front() {
            Some(edge) => edge,
            None => {
                return None;
            },
        };
        let ghost rest = self.queue@;
        match self.adjacency_map.get(&current) {
            None => {
                self.visited.insert(clone_node(&current));
            },
            Some(neighbors) => {
                if self.visited.insert(clone_node(&current)) {
                    let mut i: usize = 0;
                    while i < neighbors.len()
                        invariant
                            i <= neighbors.len(),
                            self.queue@ == rest + child_edges(
                                current,
                                neighbors@.subrange(0, i as int),
                            ),
                            self.visited@ == visited_before.insert(current),
                            self.adjacency_map@ == old(self).adjacency_map@,
                            clones_faithfully::<T>(),
                        decreases neighbors.len() - i,
                    {
                        self.queue.push_back(
                            (Some(clone_node(&current)), clone_node(&neighbors[i])),
                        );
                        i += 1;
                    }
                }
            },
        }
        proof {
            let expands = edges.contains_key(current) && !visited_before.contains(current);
            if expands {
                assert(self.queue@ == rest + child_edges(current, edges[current]));
            }
        }
        Some((parent, current))
    }
}

impl<T> Default for AdjacencyMap<T> where T: Eq + Hash + Clone {
    fn default() -> (map: Self)
        ensures
            map@ == Graph::<T>::empty(),
    {
        Self::new()
    }
}

/// A copy of a node.
fn clone_node<T: Clone>(node: &T) -> (copy: T)
    requires
        clones_faithfully::<T>(),
    ensures
        copy == *node,
{
    let copy = node.clone();
    assert(strictly_cloned(*node, copy));
    copy
}

/// Whether a node on the stack is still to be entered, or is left next.
#[derive(Debug, Clone, Copy)]
enum ReverseTopologicalPass {
    Pre,
    Post,
}

/// What a stack of pending work will yield: the entries are taken from the
/// end; one to be entered yields the traversal below it, one to be left
/// yields itself.
spec fn drain<T>(
    edges: Map<T, Seq<T>>,
    stack: Seq<(ReverseTopologicalPass, T)>,
    visited: Set<T>,
) -> Seq<T>
    decreases stack.len(),
{
    if stack.len() == 0 {
        Seq::empty()
    } else {
        let node = stack.last().1;
        match stack.last().0 {
            ReverseTopologicalPass::Post => seq![node] + drain(edges, stack.drop_last(), visited),
            ReverseTopologicalPass::Pre => {
                let (below, seen) = post_order(edges, node, visited);
                below + drain(edges, stack.drop_last(), seen)
            },
        }
    }
}

/// The nodes to enter, the first of them at the end of the stack.
spec fn entering<T>(nodes: Seq<T>) -> Seq<(ReverseTopologicalPass, T)> {
    Seq::new(nodes.len(), |i: int| (ReverseTopologicalPass::Pre, nodes[nodes.len() - 1 - i]))
}

/// Entering a list of nodes on top of a stack yields the traversal below
/// them, then what the stack yields.
proof fn lemma_drain_entering<T>(
    edges: Map<T, Seq<T>>,
    base: Seq<(ReverseTopologicalPass, T)>,
    nodes: Seq<T>,
    visited: Set<T>,
)
    requires
        edges.dom().finite(),
    ensures
        drain(edges, base + entering(nodes), visited) == post_order_all(edges, nodes, visited).0
            + drain(edges, base, post_order_all(edges, nodes, visited).1),
    decreases nodes.len(),
{
    let stack = base + entering(nodes);
    if nodes.len() > 0 {
        let rest = nodes.drop_first();
        let seen = post_order(edges, nodes[0], visited).1;
        assert(stack.drop_last() =~= base + entering(rest));
        lemma_drain_entering(edges, base, rest, seen);
        lemma_post_order_all_unfold(edges, nodes, visited);
    }
}

/// Takes the next node in reverse topological order off a stack of pending
/// work.
fn next_in_post_order<T>(
    adjacency_map: &HashMap<T, Vec<T>>,
    stack: &mut Vec<(ReverseTopologicalPass, T)>,
    visited: &mut HashSet<T>,
) -> (next: Option<T>) where T: Eq + Hash + Clone
    requires
        obeys_key_model::<T>(),
        clones_faithfully::<T>(),
    ensures
        match next {
            Some(node) => {
                &&& drain(edges_of(adjacency_map@), old(stack)@, old(visited)@).len() > 0
                &&& drain(edges_of(adjacency_map@), old(stack)@, old(visited)@)[0] == node
                &&& drain(edges_of(adjacency_map@), final(stack)@, final(visited)@) == drain(
                    edges_of(adjacency_map@),
                    old(stack)@,
                    old(visited)@,
                ).drop_first()
            },
            None => {
                &&& drain(edges_of(adjacency_map@), old(stack)@, old(visited)@).len() == 0
                &&& drain(edges_of(adjacency_map@), final(stack)@, final(visited)@).len() == 0
            },
        },
{
    let ghost edges = edges_of(adjacency_map@);
    let ghost pending = drain(edges, stack@, visited@);
    assert(edges.dom() =~= adjacency_map@.dom());
    loop
        invariant
            obeys_key_model::<T>(),
            clones_faithfully::<T>(),
            edges == edges_of(adjacency_map@),
            edges.dom().finite(),
            drain(edges, stack@, visited@) == pending,
            pending == drain(edges, old(stack)@, old(visited)@),
        decreases unvisited(edges, visited@), stack.len(),
    {
        let ghost stack_before = stack@;
        let ghost visited_before = visited@;
        let (pass, current) = match stack.pop() {
            Some(entry) => entry,
            None => {
                return None;
            },
        };
        match pass {
            ReverseTopologicalPass::Post => {
                return Some(current);
            },
            ReverseTopologicalPass::Pre => {
                if visited.contains(&current) {
                    continue ;
                }
                visited.insert(clone_node(&current));
                match adjacency_map.get(&current) {
                    None => {
                        return Some(current);
                    },
                    Some(neighbors) => {
                        let ghost base = stack@.push((ReverseTopologicalPass::Post, current));
                        let ghost entered = current;
                        stack.push((ReverseTopologicalPass::Post, current));
                        let mut i: usize = neighbors.len();
                        while i > 0
                            invariant
                                clones_faithfully::<T>(),
                                i <= neighbors.len(),
                                stack@ == base + entering(
                                    neighbors@.subrange(i as int, neighbors.len() as int),
                                ),
                            decreases i,
                        {
                            i -= 1;
                            stack.push((ReverseTopologicalPass::Pre, clone_node(&neighbors[i])));
                        }
                        proof {
                            assert(neighbors@.subrange(0, neighbors.len() as int) =~= neighbors@);
                            lemma_drain_entering(edges, base, neighbors@, visited@);
                            lemma_visit_decreases(edges, entered, visited_before);
                            assert(base.drop_last() =~= stack_before.drop_last());
                        }
                    },
                }
            },
        }
    }
}

} // verus!
