//! The dependency graph, held in a `daggy::stable_dag::StableDag` whose node weights
//! are the positions of the items they stand for, and sorted with `petgraph`.

use crate::graph::{cyclic, has_edge, is_topological_order, reaches};
use daggy::stable_dag::StableDag;
use daggy::NodeIndex;
use vstd::prelude::*;

verus! {

/// A `daggy` graph whose node weights are positions of items and whose edge weights
/// are unused. Verus does not accept a declaration of `StableDag` itself (its index
/// parameter is bound by a `petgraph` trait), so the graph is held in this opaque struct.
#[verifier::external_body]
pub struct DependencyDag {
    inner: StableDag<usize, u32, u32>,
}

/// The node weights of the graph, by node index.
pub uninterp spec fn dag_nodes(d: DependencyDag) -> Seq<usize>;

/// The edges of the graph, in the order in which they were added.
pub uninterp spec fn dag_edges(d: DependencyDag) -> Seq<(usize, usize)>;

/// `StableDag::new`: an empty graph, with no nodes and no edges.
#[verifier::external_body]
pub(crate) fn dag_new() -> (d: DependencyDag)
    ensures
        dag_nodes(d) == Seq::<usize>::empty(),
        dag_edges(d) == Seq::<(usize, usize)>::empty(),
{
    DependencyDag { inner: StableDag::new() }
}

/// `StableDag::add_node`: appends a node with the given weight; as no node is ever
/// removed, its index is the number of nodes before. It panics once the `u32` indices
/// are used up, which `requires` rules out.
#[verifier::external_body]
pub(crate) fn dag_add_node(d: &mut DependencyDag, weight: usize) -> (idx: usize)
    requires
        dag_nodes(*old(d)).len() < u32::MAX,
    ensures
        idx == dag_nodes(*old(d)).len(),
        dag_nodes(*final(d)) == dag_nodes(*old(d)).push(weight),
        dag_edges(*final(d)) == dag_edges(*old(d)),
{
    d.inner.add_node(weight).index()
}

/// An edge from `a` to `b` would be refused by `StableDag::add_edge`: `b` reaches `a` (a path of
/// no edge when `a == b`), and the edge is not a second one between two distinct nodes, for
/// which daggy skips the cycle check.
pub open spec fn blocked(edges: Seq<(usize, usize)>, a: int, b: int) -> bool {
    reaches(edges, b, a) && !(a != b && has_edge(edges, a, b))
}

/// `StableDag::add_edge` from node `a` to node `b` (weight 0). It refuses the edge, with
/// `WouldCycle` (whose `Debug` text is "WouldCycle" and a line break), exactly when the edge is
/// `blocked`: daggy checks for a path from `b` to `a` unless `a` has no parent, `b` has no
/// child or the edge is there already, and in the first two cases no such path exists. It panics on a missing node or once the
/// edge indices are used up, which `requires` rules out.
#[verifier::external_body]
pub(crate) fn dag_add_edge(d: &mut DependencyDag, a: usize, b: usize) -> (r: Result<
    (),
    String,
>)
    requires
        a < dag_nodes(*old(d)).len(),
        b < dag_nodes(*old(d)).len(),
        dag_edges(*old(d)).len() < u32::MAX,
    ensures
        dag_nodes(*final(d)) == dag_nodes(*old(d)),
        r is Ok ==> dag_edges(*final(d)) == dag_edges(*old(d)).push((a, b)),
        r is Ok ==> !reaches(dag_edges(*old(d)), b as int, a as int) || has_edge(
            dag_edges(*old(d)),
            a as int,
            b as int,
        ),
        r is Err ==> dag_edges(*final(d)) == dag_edges(*old(d)),
        r is Err ==> reaches(dag_edges(*old(d)), b as int, a as int),
        r is Err <==> blocked(dag_edges(*old(d)), a as int, b as int),
        r matches Err(msg) ==> msg@ == "WouldCycle\n"@,
{
    d.inner.add_edge(NodeIndex::new(a), NodeIndex::new(b), 0).map(|_| ()).map_err(
        |e| format!("{:?}", e),
    )
}

/// `petgraph::algo::toposort` on the graph: when the graph has no cycle, every node,
/// once each, each before its successors; otherwise a `Cycle` error. The text of that
/// error (the `Debug` form of the node it names) is not stated.
#[verifier::external_body]
pub(crate) fn dag_toposort(d: &DependencyDag) -> (r: Result<Vec<usize>, String>)
    ensures
        r matches Ok(order) ==> is_topological_order(
            order@,
            dag_nodes(*d).len(),
            dag_edges(*d),
        ),
        !cyclic(dag_edges(*d)) <==> r is Ok,
{
    daggy::petgraph::algo::toposort(d.inner.graph(), None).map(
        |v| v.into_iter().map(|n| n.index()).collect(),
    ).map_err(|e| format!("{:?}", e))
}

} // verus!
