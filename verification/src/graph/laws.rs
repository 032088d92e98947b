//! What holds of the iteration orders of every graph.

use vstd::prelude::*;
use vstd::set_lib::lemma_len_subset;
use crate::graph::order::{
    breadth_first, child_edges, has_edge, is_path, is_path_between, lemma_post_order_all_unfold,
    lemma_visit_decreases, post_order, post_order_all, reaches,
    reaches_from_any, root_edges, targets, unvisited, Graph,
};

verus! {

/// Every node reaches itself.
pub proof fn lemma_reaches_itself<T>(edges: Map<T, Seq<T>>, node: T)
    ensures
        reaches(edges, node, node),
{
    assert(is_path_between(edges, seq![node], node, node));
}

/// An edge followed by a path is a path.
pub proof fn lemma_reaches_after_edge<T>(edges: Map<T, Seq<T>>, from: T, next: T, to: T)
    requires
        has_edge(edges, from, next),
        reaches(edges, next, to),
    ensures
        reaches(edges, from, to),
{
    let tail = choose|path: Seq<T>| is_path_between(edges, path, next, to);
    let path = seq![from] + tail;
    assert(is_path_between(edges, path, from, to));
}

/// A path followed by an edge is a path.
pub proof fn lemma_reaches_before_edge<T>(edges: Map<T, Seq<T>>, from: T, last: T, to: T)
    requires
        reaches(edges, from, last),
        has_edge(edges, last, to),
    ensures
        reaches(edges, from, to),
{
    let head = choose|path: Seq<T>| is_path_between(edges, path, from, last);
    let path = head.push(to);
    assert(is_path_between(edges, path, from, to));
}

/// `first` stands before `second` in `order`.
pub open spec fn precedes<T>(order: Seq<T>, first: T, second: T) -> bool {
    exists|i: int, j: int|
        0 <= i < j < order.len() && #[trigger] order[i] == first && #[trigger] order[j] == second
}

/// The target of an edge from `out[i]` has its place in `out`: before
/// `out[i]`, or anywhere if it leads back to `out[i]`.
pub open spec fn placed<T>(edges: Map<T, Seq<T>>, out: Seq<T>, i: int, to: T) -> bool {
    exists|j: int|
        0 <= j < out.len() && #[trigger] out[j] == to && (j < i || reaches(edges, to, out[i]))
}

/// Every edge from a node of `out` leads to a node visited before, or to one
/// that has its place in `out`.
pub open spec fn settled<T>(edges: Map<T, Seq<T>>, out: Seq<T>, visited: Set<T>) -> bool {
    forall|i: int, to: T|
        0 <= i < out.len() && #[trigger] has_edge(edges, out[i], to) ==> visited.contains(to)
            || placed(edges, out, i, to)
}

/// What a depth-first traversal from `starts` leaves behind: `out` are the
/// nodes it left, in order, and `seen` the nodes visited afterwards.
pub open spec fn traversed<T>(
    edges: Map<T, Seq<T>>,
    starts: Seq<T>,
    visited: Set<T>,
    out: Seq<T>,
    seen: Set<T>,
) -> bool {
    &&& forall|node: T| seen.contains(node) <==> visited.contains(node) || out.contains(node)
    &&& out.no_duplicates()
    &&& forall|i: int| 0 <= i < out.len() ==> !visited.contains(#[trigger] out[i])
    &&& forall|i: int| 0 <= i < out.len() ==> reaches_from_any(edges, starts, #[trigger] out[i])
    &&& forall|k: int| 0 <= k < starts.len() ==> seen.contains(#[trigger] starts[k])
    &&& settled(edges, out, visited)
}

/// The traversal below one node leaves it and what it reaches, each once, and
/// settles every edge that starts from them.
pub proof fn lemma_post_order_traversed<T>(edges: Map<T, Seq<T>>, node: T, visited: Set<T>)
    requires
        edges.dom().finite(),
    ensures
        traversed(
            edges,
            seq![node],
            visited,
            post_order(edges, node, visited).0,
            post_order(edges, node, visited).1,
        ),
    decreases unvisited(edges, visited), 0nat,
{
    let starts = seq![node];
    let out = post_order(edges, node, visited).0;
    if !visited.contains(node) && !edges.contains_key(node) {
        lemma_reaches_itself(edges, node);
        assert(reaches(edges, starts[0], node));
    } else if !visited.contains(node) {
        let children = edges[node];
        let inner = visited.insert(node);
        let (below, _) = post_order_all(edges, children, inner);
        lemma_visit_decreases(edges, node, visited);
        lemma_post_order_all_traversed(edges, children, inner);
        assert(forall|x: T| out.contains(x) <==> below.contains(x) || x == node) by {
            assert forall|x: T| below.contains(x) || x == node implies out.contains(x) by {
                if below.contains(x) {
                    let i = choose|i: int| 0 <= i < below.len() && below[i] == x;
                    assert(out[i] == x);
                } else {
                    assert(out[below.len() as int] == x);
                }
            }
        }
        assert forall|i: int| 0 <= i < out.len() implies reaches_from_any(
            edges,
            starts,
            #[trigger] out[i],
        ) by {
            lemma_below_reached(edges, node, visited, i);
            assert(reaches(edges, starts[0], out[i]));
        }
        assert forall|i: int, to: T| 0 <= i < out.len() && #[trigger] has_edge(
            edges,
            out[i],
            to,
        ) implies visited.contains(to) || placed(edges, out, i, to) by {
            if i < below.len() && to == node {
                lemma_below_reached(edges, node, visited, i);
                assert(out[below.len() as int] == to);
            }
        }
    }
}

/// Whatever the traversal below `node` leaves at place `i` can be reached
/// from `node`.
proof fn lemma_below_reached<T>(edges: Map<T, Seq<T>>, node: T, visited: Set<T>, i: int)
    requires
        edges.dom().finite(),
        edges.contains_key(node),
        !visited.contains(node),
        0 <= i < post_order(edges, node, visited).0.len(),
        traversed(
            edges,
            edges[node],
            visited.insert(node),
            post_order_all(edges, edges[node], visited.insert(node)).0,
            post_order_all(edges, edges[node], visited.insert(node)).1,
        ),
    ensures
        reaches(edges, node, post_order(edges, node, visited).0[i]),
{
    let children = edges[node];
    let (below, _) = post_order_all(edges, children, visited.insert(node));
    if i < below.len() {
        let k = choose|k: int| 0 <= k < children.len() && reaches(edges, #[trigger] children[k], below[i]);
        lemma_reaches_after_edge(edges, node, children[k], below[i]);
    } else {
        lemma_reaches_itself(edges, node);
    }
}

/// The traversal below a list of nodes leaves them and what they reach, each
/// once, and settles every edge that starts from them.
pub proof fn lemma_post_order_all_traversed<T>(
    edges: Map<T, Seq<T>>,
    nodes: Seq<T>,
    visited: Set<T>,
)
    requires
        edges.dom().finite(),
    ensures
        traversed(
            edges,
            nodes,
            visited,
            post_order_all(edges, nodes, visited).0,
            post_order_all(edges, nodes, visited).1,
        ),
    decreases unvisited(edges, visited), nodes.len(),
{
    if nodes.len() > 0 {
        let rest = nodes.drop_first();
        let (first, seen) = post_order(edges, nodes[0], visited);
        let (others, seen_all) = post_order_all(edges, rest, seen);
        let out = first + others;
        lemma_post_order_all_unfold(edges, nodes, visited);
        lemma_post_order_traversed(edges, nodes[0], visited);
        lemma_len_subset(edges.dom().difference(seen), edges.dom().difference(visited));
        lemma_post_order_all_traversed(edges, rest, seen);
        assert(forall|x: T| out.contains(x) <==> first.contains(x) || others.contains(x)) by {
            assert forall|x: T| first.contains(x) || others.contains(x) implies out.contains(x) by {
                if first.contains(x) {
                    let i = choose|i: int| 0 <= i < first.len() && first[i] == x;
                    assert(out[i] == x);
                } else {
                    let i = choose|i: int| 0 <= i < others.len() && others[i] == x;
                    assert(out[i + first.len()] == x);
                }
            }
        }
        assert forall|k: int| 0 <= k < nodes.len() implies seen_all.contains(#[trigger] nodes[k]) by {
            if k == 0 {
                assert(seen.contains(seq![nodes[0]][0]));
            } else {
                assert(seen_all.contains(rest[k - 1]));
            }
        }
    }
}

/// A path that starts inside a set which no edge leaves stays inside it.
proof fn lemma_path_stays<T>(edges: Map<T, Seq<T>>, members: Set<T>, path: Seq<T>, i: int)
    requires
        is_path(edges, path),
        members.contains(path[0]),
        forall|a: T, b: T| members.contains(a) && #[trigger] has_edge(edges, a, b) ==> members.contains(b),
        0 <= i < path.len(),
    ensures
        members.contains(path[i]),
    decreases i,
{
    if i > 0 {
        lemma_path_stays(edges, members, path, i - 1);
    }
}

/// Whatever can be reached from a member of a set which no edge leaves is a
/// member too.
pub proof fn lemma_reached_stays<T>(edges: Map<T, Seq<T>>, members: Set<T>, from: T, to: T)
    requires
        members.contains(from),
        forall|a: T, b: T| members.contains(a) && #[trigger] has_edge(edges, a, b) ==> members.contains(b),
        reaches(edges, from, to),
    ensures
        members.contains(to),
{
    let path = choose|path: Seq<T>| is_path_between(edges, path, from, to);
    lemma_path_stays(edges, members, path, path.len() - 1);
}

/// The reverse topological order holds every node that can be reached from
/// the roots, and no other, each of them once.
pub proof fn lemma_reverse_topological_exactly_once<T>(graph: Graph<T>)
    requires
        graph.edges.dom().finite(),
    ensures
        graph.reverse_topological().no_duplicates(),
        forall|node: T| graph.reverse_topological().contains(node) <==> graph.reachable(node),
{
    let edges = graph.edges;
    let order = graph.reverse_topological();
    let members = order.to_set();
    lemma_post_order_all_traversed(edges, graph.roots, Set::empty());
    assert forall|node: T| graph.reachable(node) implies order.contains(node) by {
        let k = choose|k: int| 0 <= k < graph.roots.len() && reaches(edges, #[trigger] graph.roots[k], node);
        lemma_reached_stays(edges, members, graph.roots[k], node);
    }
}

/// Topological soundness: the target of an edge stands before its origin in
/// the reverse topological order, unless the edge lies on a cycle. (An origin
/// that cannot be reached from the roots is not in the order at all.)
pub proof fn lemma_reverse_topological_sound<T>(graph: Graph<T>, from: T, to: T)
    requires
        graph.edges.dom().finite(),
        graph.has_edge(from, to),
        graph.reachable(from),
    ensures
        graph.reverse_topological().contains(from),
        graph.reverse_topological().contains(to),
        precedes(graph.reverse_topological(), to, from) || graph.reaches(to, from),
{
    let edges = graph.edges;
    let order = graph.reverse_topological();
    lemma_reverse_topological_exactly_once(graph);
    lemma_post_order_all_traversed(edges, graph.roots, Set::empty());
    let i = choose|i: int| 0 <= i < order.len() && order[i] == from;
    assert(placed(edges, order, i, to));
}

/// The same holds of the order below one node: every edge that starts from a
/// node which `start` reaches has its target before its origin, unless the
/// edge lies on a cycle.
pub proof fn lemma_reverse_topological_from_sound<T>(graph: Graph<T>, start: T, from: T, to: T)
    requires
        graph.edges.dom().finite(),
        graph.has_edge(from, to),
        graph.reaches(start, from),
    ensures
        graph.reverse_topological_from(start).contains(from),
        graph.reverse_topological_from(start).contains(to),
        precedes(graph.reverse_topological_from(start), to, from) || graph.reaches(to, from),
{
    let edges = graph.edges;
    let order = graph.reverse_topological_from(start);
    let members = order.to_set();
    lemma_post_order_traversed(edges, start, Set::empty());
    assert(seq![start][0] == start);
    lemma_reached_stays(edges, members, start, from);
    let i = choose|i: int| 0 <= i < order.len() && order[i] == from;
    assert(placed(edges, order, i, to));
}

/// `node` was visited before, or is the target of one of `pairs`.
pub open spec fn covered<T>(visited: Set<T>, pairs: Seq<(Option<T>, T)>, node: T) -> bool {
    visited.contains(node) || targets(pairs).contains(node)
}

/// The successors of every visited node are visited or queued.
pub open spec fn frontier<T>(
    edges: Map<T, Seq<T>>,
    queue: Seq<(Option<T>, T)>,
    visited: Set<T>,
) -> bool {
    forall|from: T, to: T|
        visited.contains(from) && #[trigger] has_edge(edges, from, to) ==> covered(
            visited,
            queue,
            to,
        )
}

/// What a breadth-first traversal yields covers its queue, follows every
/// edge, and holds nothing but queued pairs and recorded edges to nodes that
/// the queue reaches.
pub open spec fn swept<T>(
    edges: Map<T, Seq<T>>,
    queue: Seq<(Option<T>, T)>,
    visited: Set<T>,
    out: Seq<(Option<T>, T)>,
) -> bool {
    &&& forall|k: int| 0 <= k < queue.len() ==> covered(visited, out, (#[trigger] queue[k]).1)
    &&& forall|from: T, to: T|
        covered(visited, out, from) && #[trigger] has_edge(edges, from, to) ==> covered(
            visited,
            out,
            to,
        )
    &&& forall|i: int|
        0 <= i < out.len() ==> reaches_from_any(edges, targets(queue), (#[trigger] out[i]).1)
    &&& forall|i: int|
        0 <= i < out.len() ==> queue.contains(#[trigger] out[i]) || ((out[i]).0 is Some
            && has_edge(edges, (out[i]).0->0, (out[i]).1))
}

/// A breadth-first traversal sweeps whatever its queue reaches.
pub proof fn lemma_breadth_first_swept<T>(
    edges: Map<T, Seq<T>>,
    queue: Seq<(Option<T>, T)>,
    visited: Set<T>,
)
    requires
        edges.dom().finite(),
        frontier(edges, queue, visited),
    ensures
        swept(edges, queue, visited, breadth_first(edges, queue, visited)),
    decreases unvisited(edges, visited), queue.len(),
{
    let out = breadth_first(edges, queue, visited);
    if queue.len() > 0 {
        let node = queue[0].1;
        let rest = queue.drop_first();
        let expands = edges.contains_key(node) && !visited.contains(node);
        let later = if expands {
            rest + child_edges(node, edges[node])
        } else {
            rest
        };
        let inner = visited.insert(node);
        let tail = breadth_first(edges, later, inner);
        if expands {
            lemma_visit_decreases(edges, node, visited);
        } else {
            lemma_len_subset(edges.dom().difference(inner), edges.dom().difference(visited));
        }
        assert(frontier(edges, later, inner)) by {
            assert forall|from: T, to: T| inner.contains(from) && #[trigger] has_edge(
                edges,
                from,
                to,
            ) implies covered(inner, later, to) by {
                if visited.contains(from) {
                    if !visited.contains(to) {
                        let k = choose|k: int| 0 <= k < queue.len() && targets(queue)[k] == to;
                        if k > 0 {
                            assert(targets(later)[k - 1] == to);
                        }
                    }
                } else {
                    let k = choose|k: int| 0 <= k < edges[node].len() && edges[node][k] == to;
                    assert(targets(later)[rest.len() + k] == to);
                }
            }
        }
        lemma_breadth_first_swept(edges, later, inner);
        assert(forall|x: T| covered(visited, out, x) <==> covered(inner, tail, x)) by {
            assert forall|x: T| covered(visited, out, x) implies covered(inner, tail, x) by {
                if !visited.contains(x) {
                    let i = choose|i: int| 0 <= i < out.len() && targets(out)[i] == x;
                    if i > 0 {
                        assert(targets(tail)[i - 1] == x);
                    }
                }
            }
            assert forall|x: T| covered(inner, tail, x) implies covered(visited, out, x) by {
                if x == node {
                    assert(targets(out)[0] == x);
                } else if !visited.contains(x) {
                    let i = choose|i: int| 0 <= i < tail.len() && targets(tail)[i] == x;
                    assert(targets(out)[i + 1] == x);
                }
            }
        }
        assert forall|k: int| 0 <= k < queue.len() implies covered(
            visited,
            out,
            (#[trigger] queue[k]).1,
        ) by {
            if k > 0 {
                assert(covered(inner, tail, (later[k - 1]).1));
            }
        }
        assert forall|i: int| 0 <= i < out.len() implies reaches_from_any(
            edges,
            targets(queue),
            (#[trigger] out[i]).1,
        ) by {
            if i == 0 {
                lemma_reaches_itself(edges, node);
                assert(reaches(edges, targets(queue)[0], out[i].1));
            } else {
                let reached = tail[i - 1].1;
                let k = choose|k: int|
                    0 <= k < later.len() && reaches(edges, #[trigger] targets(later)[k], reached);
                if k < rest.len() {
                    assert(reaches(edges, targets(queue)[k + 1], reached));
                } else {
                    let child = edges[node][k - rest.len()];
                    lemma_reaches_after_edge(edges, node, child, reached);
                    assert(reaches(edges, targets(queue)[0], reached));
                }
            }
        }
    }
}

/// Breadth-first completeness: the pairs of the breadth-first order lead to
/// every node that can be reached from the roots, and to no other; each pair
/// is a root, from nowhere, or a recorded edge.
pub proof fn lemma_breadth_first_complete<T>(graph: Graph<T>)
    requires
        graph.edges.dom().finite(),
    ensures
        forall|node: T|
            graph.reachable(node) <==> targets(graph.breadth_first_edges()).contains(node),
        forall|i: int|
            0 <= i < graph.breadth_first_edges().len() ==> match (
            #[trigger] graph.breadth_first_edges()[i]).0 {
                Some(parent) => graph.has_edge(parent, graph.breadth_first_edges()[i].1),
                None => graph.roots.contains(graph.breadth_first_edges()[i].1),
            },
{
    let edges = graph.edges;
    let queue = root_edges(graph.roots);
    let out = graph.breadth_first_edges();
    let members = targets(out).to_set();
    lemma_breadth_first_swept(edges, queue, Set::empty());
    assert forall|node: T| graph.reachable(node) implies targets(out).contains(node) by {
        let k = choose|k: int| 0 <= k < graph.roots.len() && reaches(edges, #[trigger] graph.roots[k], node);
        assert(covered(Set::empty(), out, queue[k].1));
        lemma_reached_stays(edges, members, graph.roots[k], node);
    }
    assert forall|i: int| 0 <= i < out.len() implies match (#[trigger] out[i]).0 {
        Some(parent) => graph.has_edge(parent, out[i].1),
        None => graph.roots.contains(out[i].1),
    } by {
        if queue.contains(out[i]) {
            let k = choose|k: int| 0 <= k < queue.len() && queue[k] == out[i];
            assert(graph.roots[k] == out[i].1);
        }
    }
}

/// Among the nodes that can be reached from the roots no node is recorded
/// twice: not as a root, not below one node, not below two nodes, and not
/// below a node when it is a root.
pub open spec fn recorded_once<T>(graph: Graph<T>) -> bool {
    &&& graph.roots.no_duplicates()
    &&& forall|from: T|
        graph.reachable(from) && graph.edges.contains_key(from) ==> (
        #[trigger] graph.edges[from]).no_duplicates()
    &&& forall|from: T, to: T|
        graph.reachable(from) && #[trigger] graph.has_edge(from, to) ==> !graph.roots.contains(to)
    &&& forall|a: T, b: T, to: T|
        graph.reachable(a) && graph.reachable(b) && #[trigger] graph.has_edge(a, to)
            && #[trigger] graph.has_edge(b, to) ==> a == b
}

/// `node` is queued, or recorded below a node of `live` that was not visited.
pub open spec fn pending<T>(
    edges: Map<T, Seq<T>>,
    queue: Seq<(Option<T>, T)>,
    visited: Set<T>,
    live: Set<T>,
    node: T,
) -> bool {
    targets(queue).contains(node) || exists|from: T|
        live.contains(from) && !visited.contains(from) && #[trigger] has_edge(edges, from, node)
}

/// No node is pending twice: the queue holds each node once, and what is
/// recorded below the nodes of `live` that were not visited is recorded
/// once, and is not queued.
pub open spec fn apart<T>(
    edges: Map<T, Seq<T>>,
    queue: Seq<(Option<T>, T)>,
    visited: Set<T>,
    live: Set<T>,
) -> bool {
    &&& targets(queue).no_duplicates()
    &&& forall|k: int| 0 <= k < queue.len() ==> live.contains((#[trigger] queue[k]).1)
    &&& forall|a: T, b: T| live.contains(a) && #[trigger] has_edge(edges, a, b) ==> live.contains(b)
    &&& forall|from: T|
        live.contains(from) && !visited.contains(from) && edges.contains_key(from) ==> (
        #[trigger] edges[from]).no_duplicates()
    &&& forall|from: T, to: T|
        live.contains(from) && !visited.contains(from) && #[trigger] has_edge(edges, from, to)
            ==> !targets(queue).contains(to)
    &&& forall|a: T, b: T, to: T|
        live.contains(a) && live.contains(b) && !visited.contains(a) && !visited.contains(b)
            && #[trigger] has_edge(edges, a, to) && #[trigger] has_edge(edges, b, to) ==> a == b
}

/// Where no node is pending twice, a breadth-first traversal leads to no node
/// twice, and only to nodes that were pending.
pub proof fn lemma_breadth_first_apart<T>(
    edges: Map<T, Seq<T>>,
    queue: Seq<(Option<T>, T)>,
    visited: Set<T>,
    live: Set<T>,
)
    requires
        edges.dom().finite(),
        apart(edges, queue, visited, live),
    ensures
        targets(breadth_first(edges, queue, visited)).no_duplicates(),
        forall|i: int|
            0 <= i < breadth_first(edges, queue, visited).len() ==> pending(
                edges,
                queue,
                visited,
                live,
                (#[trigger] breadth_first(edges, queue, visited)[i]).1,
            ),
    decreases unvisited(edges, visited), queue.len(),
{
    let out = breadth_first(edges, queue, visited);
    if queue.len() > 0 {
        let node = queue[0].1;
        let rest = queue.drop_first();
        let expands = edges.contains_key(node) && !visited.contains(node);
        let later = if expands {
            rest + child_edges(node, edges[node])
        } else {
            rest
        };
        let inner = visited.insert(node);
        let tail = breadth_first(edges, later, inner);
        if expands {
            lemma_visit_decreases(edges, node, visited);
        } else {
            lemma_len_subset(edges.dom().difference(inner), edges.dom().difference(visited));
        }
        assert(targets(queue)[0] == node);
        assert forall|k: int| 0 <= k < rest.len() implies later[k] == queue[k + 1] && targets(
            later,
        )[k] == targets(queue)[k + 1] by {}
        assert(apart(edges, later, inner, live)) by {
            assert(targets(later).no_duplicates()) by {
                assert forall|i: int, j: int|
                    0 <= i < later.len() && 0 <= j < later.len() && i != j implies targets(
                    later,
                )[i] != targets(later)[j] by {
                    if i < rest.len() && j < rest.len() {
                    } else if i >= rest.len() && j >= rest.len() {
                    } else if i < rest.len() {
                        assert(has_edge(edges, node, edges[node][j - rest.len()]));
                    } else {
                        assert(has_edge(edges, node, edges[node][i - rest.len()]));
                    }
                }
            }
            assert forall|k: int| 0 <= k < later.len() implies live.contains(
                (#[trigger] later[k]).1,
            ) by {
                if k < rest.len() {
                } else {
                    assert(has_edge(edges, node, edges[node][k - rest.len()]));
                }
            }
            assert forall|from: T, to: T|
                live.contains(from) && !inner.contains(from) && #[trigger] has_edge(
                    edges,
                    from,
                    to,
                ) implies !targets(later).contains(to) by {
                if targets(later).contains(to) {
                    assert(has_edge(edges, node, to));
                }
            }
        }
        lemma_breadth_first_apart(edges, later, inner, live);
        assert forall|i: int| 0 <= i < tail.len() implies (#[trigger] tail[i]).1 != node
            && pending(edges, queue, visited, live, tail[i].1) by {
            let x = tail[i].1;
            assert(targets(later).contains(x) && expands && has_edge(edges, node, x)
                ==> !targets(queue).contains(x));
        }
        assert(targets(out).no_duplicates()) by {
            assert forall|i: int, j: int|
                0 <= i < out.len() && 0 <= j < out.len() && i != j implies targets(out)[i]
                != targets(out)[j] by {
                if i > 0 && j > 0 {
                    assert(targets(tail)[i - 1] != targets(tail)[j - 1]);
                } else if i > 0 {
                    assert(tail[i - 1].1 != node);
                }
            }
        }
    }
}

/// Breadth-first completeness, exactly once: where no node is recorded twice
/// among those that can be reached, each of them is the target of exactly one
/// pair of the breadth-first order. (Where one is recorded twice, it is the
/// target of as many pairs.)
pub proof fn lemma_breadth_first_exactly_once<T>(graph: Graph<T>)
    requires
        graph.edges.dom().finite(),
        recorded_once(graph),
    ensures
        targets(graph.breadth_first_edges()).no_duplicates(),
        forall|node: T|
            graph.reachable(node) <==> targets(graph.breadth_first_edges()).contains(node),
{
    let edges = graph.edges;
    let queue = root_edges(graph.roots);
    let live = Set::new(|node: T| graph.reachable(node));
    lemma_breadth_first_complete(graph);
    assert forall|k: int| 0 <= k < queue.len() implies live.contains((#[trigger] queue[k]).1) by {
        lemma_reaches_itself(edges, graph.roots[k]);
    }
    assert forall|a: T, b: T| live.contains(a) && #[trigger] has_edge(edges, a, b) implies live.contains(b) by {
        let k = choose|k: int| 0 <= k < graph.roots.len() && reaches(edges, #[trigger] graph.roots[k], a);
        lemma_reaches_before_edge(edges, graph.roots[k], a, b);
    }
    assert forall|from: T, to: T| live.contains(from) && #[trigger] has_edge(edges, from, to) implies !targets(queue).contains(to) by {
        assert(graph.has_edge(from, to));
    }
    assert forall|a: T, b: T, to: T|
        live.contains(a) && live.contains(b) && #[trigger] has_edge(edges, a, to)
            && #[trigger] has_edge(edges, b, to) implies a == b by {
        assert(graph.has_edge(a, to) && graph.has_edge(b, to));
    }
    lemma_breadth_first_apart(edges, queue, Set::empty(), live);
}

/// The pairs that start from `parent`, in order.
pub open spec fn from_parent<T>(pairs: Seq<(Option<T>, T)>, parent: T) -> Seq<(Option<T>, T)> {
    pairs.filter(|pair: (Option<T>, T)| pair.0 == Some(parent))
}

/// The edges from a node all start from it, and from no other node.
proof fn lemma_child_edges_from_parent<T>(node: T, children: Seq<T>, parent: T)
    ensures
        from_parent(child_edges(node, children), parent) == if node == parent {
            child_edges(node, children)
        } else {
            Seq::empty()
        },
    decreases children.len(),
{
    reveal(Seq::filter);
    let pairs = child_edges(node, children);
    if children.len() > 0 {
        let before = children.drop_last();
        lemma_child_edges_from_parent(node, before, parent);
        assert(pairs.drop_last() =~= child_edges(node, before));
    }
}

/// The roots start from no node.
proof fn lemma_root_edges_from_parent<T>(roots: Seq<T>, parent: T)
    ensures
        from_parent(root_edges(roots), parent) == Seq::<(Option<T>, T)>::empty(),
    decreases roots.len(),
{
    reveal(Seq::filter);
    let pairs = root_edges(roots);
    if roots.len() > 0 {
        lemma_root_edges_from_parent(roots.drop_last(), parent);
        assert(pairs.drop_last() =~= root_edges(roots.drop_last()));
    }
}

/// Of what a breadth-first traversal yields, the pairs that start from one
/// node are those of the queue, then the edges from that node if the
/// traversal expands it: if it has successors, was not visited, and is led
/// to.
pub proof fn lemma_breadth_first_from_parent<T>(
    edges: Map<T, Seq<T>>,
    queue: Seq<(Option<T>, T)>,
    visited: Set<T>,
    parent: T,
)
    requires
        edges.dom().finite(),
    ensures
        from_parent(breadth_first(edges, queue, visited), parent) == from_parent(queue, parent) + (
        if edges.contains_key(parent) && !visited.contains(parent) && targets(
            breadth_first(edges, queue, visited),
        ).contains(parent) {
            child_edges(parent, edges[parent])
        } else {
            Seq::empty()
        }),
    decreases unvisited(edges, visited), queue.len(),
{
    let out = breadth_first(edges, queue, visited);
    if queue.len() > 0 {
        let node = queue[0].1;
        let rest = queue.drop_first();
        let expands = edges.contains_key(node) && !visited.contains(node);
        let added = if expands {
            child_edges(node, edges[node])
        } else {
            Seq::empty()
        };
        let later = rest + added;
        let inner = visited.insert(node);
        let tail = breadth_first(edges, later, inner);
        let head = seq![queue[0]];
        if expands {
            lemma_visit_decreases(edges, node, visited);
        } else {
            lemma_len_subset(edges.dom().difference(inner), edges.dom().difference(visited));
        }
        assert(queue =~= head + rest);
        lemma_breadth_first_from_parent(edges, later, inner, parent);
        if expands {
            lemma_child_edges_from_parent(node, edges[node], parent);
        }
        let led_to = targets(out).contains(parent);
        let led_to_later = targets(tail).contains(parent);
        assert(targets(out)[0] == node);
        if led_to_later {
            let i = choose|i: int| 0 <= i < tail.len() && targets(tail)[i] == parent;
            assert(targets(out)[i + 1] == parent);
        }
        if led_to && node != parent {
            let i = choose|i: int| 0 <= i < out.len() && targets(out)[i] == parent;
            assert(targets(tail)[i - 1] == parent);
        }
    }
}

/// Each node is expanded once: the pairs of the breadth-first order that
/// start from a node are the edges recorded from it, in order, if it can be
/// reached from the roots, and none if it cannot.
pub proof fn lemma_breadth_first_expands_once<T>(graph: Graph<T>, node: T)
    requires
        graph.edges.dom().finite(),
    ensures
        from_parent(graph.breadth_first_edges(), node) == if graph.reachable(node) {
            child_edges(node, graph.successors(node))
        } else {
            Seq::empty()
        },
{
    let queue = root_edges(graph.roots);
    lemma_breadth_first_complete(graph);
    lemma_breadth_first_from_parent(graph.edges, queue, Set::empty(), node);
    lemma_root_edges_from_parent(graph.roots, node);
}

} // verus!
