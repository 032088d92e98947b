//! The mathematical model of the graph store and of its iteration orders.

use vstd::pervasive::strictly_cloned;
use vstd::prelude::*;
use vstd::set_lib::lemma_len_subset;

verus! {

/// What an adjacency map holds: for each node that has been given as the
/// origin of an edge, its successors in insertion order, and the roots in
/// insertion order.
#[verifier::reject_recursive_types(T)]
pub ghost struct Graph<T> {
    pub edges: Map<T, Seq<T>>,
    pub roots: Seq<T>,
}

impl<T> Graph<T> {
    /// The graph without any node.
    pub open spec fn empty() -> Graph<T> {
        Graph { edges: Map::empty(), roots: Seq::empty() }
    }

    /// The graph after recording `node` below `from`, or as a root when there
    /// is no `from`.
    pub open spec fn inserted(self, from: Option<T>, node: T) -> Graph<T> {
        match from {
            Some(origin) => Graph {
                edges: self.edges.insert(origin, self.successors(origin).push(node)),
                roots: self.roots,
            },
            None => Graph { edges: self.edges, roots: self.roots.push(node) },
        }
    }

    /// The successors recorded for `node`; none when it never was an origin.
    pub open spec fn successors(self, node: T) -> Seq<T> {
        if self.edges.contains_key(node) {
            self.edges[node]
        } else {
            Seq::empty()
        }
    }

    /// `from -> to` is a recorded edge.
    pub open spec fn has_edge(self, from: T, to: T) -> bool {
        has_edge(self.edges, from, to)
    }

    /// `to` can be reached from `from` along recorded edges (in zero or more
    /// steps).
    pub open spec fn reaches(self, from: T, to: T) -> bool {
        reaches(self.edges, from, to)
    }

    /// `node` can be reached from one of the roots.
    pub open spec fn reachable(self, node: T) -> bool {
        reaches_from_any(self.edges, self.roots, node)
    }

    /// The nodes in reverse topological order, starting from the roots.
    pub open spec fn reverse_topological(self) -> Seq<T> {
        post_order_all(self.edges, self.roots, Set::empty()).0
    }

    /// The nodes below `node` in reverse topological order.
    pub open spec fn reverse_topological_from(self, node: T) -> Seq<T> {
        post_order(self.edges, node, Set::empty()).0
    }

    /// The edges in breadth-first order, starting from the roots.
    pub open spec fn breadth_first_edges(self) -> Seq<(Option<T>, T)> {
        breadth_first(self.edges, root_edges(self.roots), Set::empty())
    }
}

/// Whether a clone of a node is that node: what the graph store asks of the
/// type of its nodes, beside the key model of its hash.
pub open spec fn clones_faithfully<T: Clone>() -> bool {
    forall|node: T, copy: T| #[trigger] strictly_cloned(node, copy) ==> node == copy
}

/// `from -> to` is a recorded edge.
pub open spec fn has_edge<T>(edges: Map<T, Seq<T>>, from: T, to: T) -> bool {
    edges.contains_key(from) && edges[from].contains(to)
}

/// `path` walks along recorded edges.
pub open spec fn is_path<T>(edges: Map<T, Seq<T>>, path: Seq<T>) -> bool {
    &&& path.len() > 0
    &&& forall|i: int| 0 <= i < path.len() - 1 ==> has_edge(edges, #[trigger] path[i], path[i + 1])
}

/// `path` walks along recorded edges from `from` to `to`.
pub open spec fn is_path_between<T>(edges: Map<T, Seq<T>>, path: Seq<T>, from: T, to: T) -> bool {
    is_path(edges, path) && path[0] == from && path.last() == to
}

/// `to` can be reached from `from` along recorded edges, in zero or more steps.
pub open spec fn reaches<T>(edges: Map<T, Seq<T>>, from: T, to: T) -> bool {
    exists|path: Seq<T>| #[trigger] is_path_between(edges, path, from, to)
}

/// `to` can be reached from one of `starts`.
pub open spec fn reaches_from_any<T>(edges: Map<T, Seq<T>>, starts: Seq<T>, to: T) -> bool {
    exists|k: int| 0 <= k < starts.len() && reaches(edges, #[trigger] starts[k], to)
}

/// How many origins have not been visited yet: the measure by which every
/// traversal terminates.
pub open spec fn unvisited<T>(edges: Map<T, Seq<T>>, visited: Set<T>) -> nat {
    edges.dom().difference(visited).len()
}

/// Depth-first traversal below `node`: the nodes in the order in which they
/// are left (children before their parent, the first visit wins), and the
/// nodes visited afterwards.
pub open spec fn post_order<T>(edges: Map<T, Seq<T>>, node: T, visited: Set<T>) -> (Seq<T>, Set<T>)
    decreases unvisited(edges, visited), 0nat,
    when edges.dom().finite()
{
    if visited.contains(node) {
        (Seq::empty(), visited)
    } else if !edges.contains_key(node) {
        (seq![node], visited.insert(node))
    } else {
        proof {
            lemma_visit_decreases(edges, node, visited);
        }
        let (below, seen) = post_order_all(edges, edges[node], visited.insert(node));
        (below.push(node), seen)
    }
}

/// Depth-first traversal below each of `nodes` in turn. (Every traversal only
/// adds to the visited nodes; the union makes that plain to the termination
/// argument.)
pub open spec fn post_order_all<T>(edges: Map<T, Seq<T>>, nodes: Seq<T>, visited: Set<T>) -> (
    Seq<T>,
    Set<T>,
)
    decreases unvisited(edges, visited), nodes.len(),
    when edges.dom().finite()
{
    if nodes.len() == 0 {
        (Seq::empty(), visited)
    } else {
        let (first, seen) = post_order(edges, nodes[0], visited);
        proof {
            lemma_len_subset(
                edges.dom().difference(visited.union(seen)),
                edges.dom().difference(visited),
            );
        }
        let (rest, seen_all) = post_order_all(edges, nodes.drop_first(), visited.union(seen));
        (first + rest, seen_all)
    }
}

/// The nodes that a sequence of edges leads to, in order.
pub open spec fn targets<T>(pairs: Seq<(Option<T>, T)>) -> Seq<T> {
    Seq::new(pairs.len(), |i: int| pairs[i].1)
}

/// The roots as edges from nowhere.
pub open spec fn root_edges<T>(roots: Seq<T>) -> Seq<(Option<T>, T)> {
    Seq::new(roots.len(), |i: int| (None, roots[i]))
}

/// The edges from `node` to each of `children`.
pub open spec fn child_edges<T>(node: T, children: Seq<T>) -> Seq<(Option<T>, T)> {
    Seq::new(children.len(), |i: int| (Some(node), children[i]))
}

/// Breadth-first traversal: every queued edge is yielded in turn and its
/// target counts as visited; the first time a node with successors is the
/// target, its own edges join the end of the queue.
pub open spec fn breadth_first<T>(
    edges: Map<T, Seq<T>>,
    queue: Seq<(Option<T>, T)>,
    visited: Set<T>,
) -> Seq<(Option<T>, T)>
    decreases unvisited(edges, visited), queue.len(),
    when edges.dom().finite()
{
    if queue.len() == 0 {
        Seq::empty()
    } else {
        let node = queue[0].1;
        if edges.contains_key(node) && !visited.contains(node) {
            proof {
                lemma_visit_decreases(edges, node, visited);
            }
            seq![queue[0]] + breadth_first(
                edges,
                queue.drop_first() + child_edges(node, edges[node]),
                visited.insert(node),
            )
        } else {
            proof {
                lemma_len_subset(
                    edges.dom().difference(visited.insert(node)),
                    edges.dom().difference(visited),
                );
            }
            seq![queue[0]] + breadth_first(edges, queue.drop_first(), visited.insert(node))
        }
    }
}

/// Visiting an origin that was not visited before leaves fewer to visit.
pub proof fn lemma_visit_decreases<T>(edges: Map<T, Seq<T>>, node: T, visited: Set<T>)
    requires
        edges.dom().finite(),
        edges.contains_key(node),
        !visited.contains(node),
    ensures
        unvisited(edges, visited.insert(node)) < unvisited(edges, visited),
{
    let before = edges.dom().difference(visited);
    let after = edges.dom().difference(visited.insert(node));
    assert(after =~= before.remove(node));
}

/// A traversal only adds to the visited nodes.
pub proof fn lemma_post_order_grows<T>(edges: Map<T, Seq<T>>, node: T, visited: Set<T>)
    requires
        edges.dom().finite(),
    ensures
        visited.subset_of(post_order(edges, node, visited).1),
    decreases unvisited(edges, visited), 0nat,
{
    if !visited.contains(node) && edges.contains_key(node) {
        lemma_visit_decreases(edges, node, visited);
        lemma_post_order_all_grows(edges, edges[node], visited.insert(node));
    }
}

/// A traversal only adds to the visited nodes.
pub proof fn lemma_post_order_all_grows<T>(edges: Map<T, Seq<T>>, nodes: Seq<T>, visited: Set<T>)
    requires
        edges.dom().finite(),
    ensures
        visited.subset_of(post_order_all(edges, nodes, visited).1),
    decreases unvisited(edges, visited), nodes.len(),
{
    if nodes.len() > 0 {
        let seen = post_order(edges, nodes[0], visited).1;
        lemma_post_order_grows(edges, nodes[0], visited);
        assert(visited.union(seen) =~= seen);
        lemma_len_subset(edges.dom().difference(seen), edges.dom().difference(visited));
        lemma_post_order_all_grows(edges, nodes.drop_first(), seen);
    }
}

/// The traversal below a list of nodes, one node after the other: the union
/// in the definition adds nothing.
pub proof fn lemma_post_order_all_unfold<T>(edges: Map<T, Seq<T>>, nodes: Seq<T>, visited: Set<T>)
    requires
        edges.dom().finite(),
        nodes.len() > 0,
    ensures
        post_order_all(edges, nodes, visited) == ({
            let (first, seen) = post_order(edges, nodes[0], visited);
            let (rest, seen_all) = post_order_all(edges, nodes.drop_first(), seen);
            (first + rest, seen_all)
        }),
{
    let seen = post_order(edges, nodes[0], visited).1;
    lemma_post_order_grows(edges, nodes[0], visited);
    assert(visited.union(seen) =~= seen);
}

} // verus!
