//! Directed graphs over node indices, as sequences of edges: paths, reachability,
//! cycles and topological orders.

use vstd::prelude::*;

verus! {

/// `edges` holds an edge from `a` to `b`.
pub open spec fn has_edge(edges: Seq<(usize, usize)>, a: int, b: int) -> bool {
    exists|k: int| 0 <= k < edges.len() && #[trigger] edges[k] == (a as usize, b as usize) && 0 <= a
        && 0 <= b && a <= usize::MAX && b <= usize::MAX
}

/// `p` is a walk along the edges: every two consecutive nodes are joined by an edge.
pub open spec fn is_path(edges: Seq<(usize, usize)>, p: Seq<int>) -> bool {
    &&& p.len() >= 1
    &&& forall|i: int| 0 <= i < p.len() - 1 ==> has_edge(edges, #[trigger] p[i], p[i + 1])
}

/// There is a walk (possibly empty) from `a` to `b`.
pub open spec fn reaches(edges: Seq<(usize, usize)>, a: int, b: int) -> bool {
    exists|p: Seq<int>| #[trigger] is_path(edges, p) && p[0] == a && p.last() == b
}

/// Some non-empty walk comes back to where it started.
pub open spec fn cyclic(edges: Seq<(usize, usize)>) -> bool {
    exists|p: Seq<int>| #[trigger] is_path(edges, p) && p.len() >= 2 && p[0] == p.last()
}

/// Every edge joins two of the nodes `0..n`.
pub open spec fn edges_within(edges: Seq<(usize, usize)>, n: nat) -> bool {
    forall|k: int| 0 <= k < edges.len() ==> (#[trigger] edges[k]).0 < n && edges[k].1 < n
}

/// `order` lists each of the nodes `0..n` exactly once.
pub open spec fn is_permutation(order: Seq<usize>, n: nat) -> bool {
    &&& order.len() == n
    &&& order.no_duplicates()
    &&& forall|i: int| 0 <= i < order.len() ==> #[trigger] order[i] < n
    &&& forall|x: usize| x < n ==> #[trigger] order.contains(x)
}

/// `order` lists the nodes `0..n` so that every edge goes from an earlier to a later one.
pub open spec fn is_topological_order(order: Seq<usize>, n: nat, edges: Seq<(usize, usize)>) -> bool {
    &&& is_permutation(order, n)
    &&& forall|i: int, j: int|
        0 <= i < order.len() && 0 <= j < order.len() && #[trigger] has_edge(
            edges,
            order[i] as int,
            order[j] as int,
        ) ==> i < j
}

/// `s` is a prefix of `t`.
pub open spec fn is_prefix<A>(s: Seq<A>, t: Seq<A>) -> bool {
    s.len() <= t.len() && forall|j: int| 0 <= j < s.len() ==> s[j] == #[trigger] t[j]
}

/// The position of `x` in `order`.
pub open spec fn position_of(order: Seq<usize>, x: int) -> int {
    choose|i: int| 0 <= i < order.len() && order[i] == x
}

/// An edge kept in a longer edge list is still there.
pub proof fn lemma_has_edge_prefix(s: Seq<(usize, usize)>, t: Seq<(usize, usize)>, a: int, b: int)
    requires
        is_prefix(s, t),
        has_edge(s, a, b),
    ensures
        has_edge(t, a, b),
{
    let k = choose|k: int|
        0 <= k < s.len() && #[trigger] s[k] == (a as usize, b as usize) && 0 <= a && 0 <= b && a
            <= usize::MAX && b <= usize::MAX;
    assert(t[k] == (a as usize, b as usize));
}

/// An edge of `t` is an edge of `s + t`.
pub proof fn lemma_has_edge_append(s: Seq<(usize, usize)>, t: Seq<(usize, usize)>, a: int, b: int)
    requires
        has_edge(t, a, b),
    ensures
        has_edge(s + t, a, b),
{
    let k = choose|k: int|
        0 <= k < t.len() && #[trigger] t[k] == (a as usize, b as usize) && 0 <= a && 0 <= b && a
            <= usize::MAX && b <= usize::MAX;
    assert((s + t)[s.len() + k] == (a as usize, b as usize));
}

/// A walk along the edges of `s` is a walk along the edges of any list that extends `s`.
pub proof fn lemma_path_prefix(s: Seq<(usize, usize)>, t: Seq<(usize, usize)>, p: Seq<int>)
    requires
        is_prefix(s, t),
        is_path(s, p),
    ensures
        is_path(t, p),
{
    assert forall|i: int| 0 <= i < p.len() - 1 implies has_edge(t, #[trigger] p[i], p[i + 1]) by {
        lemma_has_edge_prefix(s, t, p[i], p[i + 1]);
    }
}

/// Adding an edge from `a` to `b` where `b` already reaches `a` closes a cycle.
pub proof fn lemma_closing_edge_makes_cycle(
    s: Seq<(usize, usize)>,
    t: Seq<(usize, usize)>,
    a: int,
    b: int,
)
    requires
        is_prefix(s, t),
        reaches(s, b, a),
        has_edge(t, a, b),
    ensures
        cyclic(t),
{
    let p = choose|p: Seq<int>| #[trigger] is_path(s, p) && p[0] == b && p.last() == a;
    lemma_path_prefix(s, t, p);
    let q = p.push(b);
    assert forall|i: int| 0 <= i < q.len() - 1 implies has_edge(t, #[trigger] q[i], q[i + 1]) by {
        if i < p.len() - 1 {
            assert(q[i] == p[i] && q[i + 1] == p[i + 1]);
        } else {
            assert(q[i] == a && q[i + 1] == b);
        }
    }
    assert(is_path(t, q));
    assert(q[0] == q.last());
}

/// Along a walk, positions in a topological order strictly increase.
proof fn lemma_path_goes_forward(order: Seq<usize>, n: nat, edges: Seq<(usize, usize)>, p: Seq<int>)
    requires
        is_topological_order(order, n, edges),
        edges_within(edges, n),
        is_path(edges, p),
        p.len() >= 2,
    ensures
        0 <= position_of(order, p[0]) < position_of(order, p.last()) < order.len(),
        order[position_of(order, p[0])] == p[0],
        order[position_of(order, p.last())] == p.last(),
    decreases p.len(),
{
    let a = p[p.len() - 2];
    let b = p.last();
    assert(has_edge(edges, a, b));
    let k = choose|k: int|
        0 <= k < edges.len() && #[trigger] edges[k] == (a as usize, b as usize) && 0 <= a && 0 <= b
            && a <= usize::MAX && b <= usize::MAX;
    assert(edges[k].0 < n && edges[k].1 < n);
    assert(order.contains(a as usize));
    assert(order.contains(b as usize));
    let ia = position_of(order, a);
    let ib = position_of(order, b);
    assert(0 <= ia < order.len() && order[ia] == a);
    assert(0 <= ib < order.len() && order[ib] == b);
    assert(has_edge(edges, order[ia] as int, order[ib] as int));
    assert(ia < ib);
    if p.len() > 2 {
        let q = p.drop_last();
        assert forall|i: int| 0 <= i < q.len() - 1 implies has_edge(edges, #[trigger] q[i], q[i + 1]) by {
            assert(q[i] == p[i] && q[i + 1] == p[i + 1]);
        }
        lemma_path_goes_forward(order, n, edges, q);
        assert(q[0] == p[0] && q.last() == a);
    } else {
        assert(p[0] == a);
    }
}

/// A graph that has a topological order has no cycle.
pub proof fn lemma_topological_order_acyclic(order: Seq<usize>, n: nat, edges: Seq<(usize, usize)>)
    requires
        is_topological_order(order, n, edges),
        edges_within(edges, n),
    ensures
        !cyclic(edges),
{
    if cyclic(edges) {
        let p = choose|p: Seq<int>| #[trigger] is_path(edges, p) && p.len() >= 2 && p[0] == p.last();
        lemma_path_goes_forward(order, n, edges, p);
    }
}

} // verus!
