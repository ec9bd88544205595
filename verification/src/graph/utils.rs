//! Cycles among connections, and identifiers of derived features.

use vstd::prelude::*;
use crate::graph::GraphConnection;

verus! {

/// What the road length filter adds to the identifier of a feature.
pub const RLF_NUMBER: u64 = 1000000000000000;

/// What the road angle filter and the elevation filter add to the
/// identifier of a feature.
pub const RAF_NUMBER: u64 = 2000000000000000;

/// The identifier of a feature derived from one with the identifier `id`:
/// `id` plus `number` where there is an identifier and the sum fits in 64
/// bits, none otherwise.
pub open spec fn shifted_id(id: Option<u64>, number: u64) -> Option<u64> {
    match id {
        Some(n) => if n + number <= u64::MAX {
            Some((n + number) as u64)
        } else {
            None
        },
        None => None,
    }
}

/// The identifier of a feature derived from one with the identifier `id`.
pub fn new_id(id: Option<u64>, number: u64) -> (derived: Option<u64>)
    ensures
        derived == shifted_id(id, number),
{
    match id {
        Some(n) => n.checked_add(number),
        None => None,
    }
}

/// Whether a connection leads from the node `from` to the node `to`.
pub open spec fn connects(connections: Seq<GraphConnection>, from: Seq<char>, to: Seq<char>) -> bool {
    exists|i: int|
        0 <= i < connections.len() && (#[trigger] connections[i]).source@ == from
            && connections[i].target@ == to
}

/// Whether `walk` follows connections from each of its nodes to the next.
pub open spec fn follows(connections: Seq<GraphConnection>, walk: Seq<Seq<char>>) -> bool {
    forall|k: int|
        0 <= k < walk.len() - 1 ==> connects(connections, #[trigger] walk[k], walk[k + 1])
}

/// Whether the connections hold a directed cycle: a walk along one
/// connection or more that ends at the node where it began.
pub open spec fn has_cycle(connections: Seq<GraphConnection>) -> bool {
    exists|walk: Seq<Seq<char>>|
        walk.len() >= 2 && #[trigger] follows(connections, walk) && walk.first() == walk.last()
}

/// `petgraph::visit::depth_first_search` over the directed graph that
/// `petgraph::graphmap::GraphMap::from_edges` makes of the connections, each
/// taken from its source to its target, started from every node. The search
/// reports a back edge, an edge to a node that it has entered and not yet
/// left, where and only where the graph has a directed cycle; the wrapper
/// says whether one was reported.
#[verifier::external_body]
fn has_back_edge(connections: &Vec<GraphConnection>) -> (found: bool)
    ensures
        found == has_cycle(connections@),
{
    let edges = connections.iter().map(|c| (c.source.as_str(), c.target.as_str()));
    let g = petgraph::graphmap::GraphMap::<&str, (), petgraph::Directed>::from_edges(edges);
    let g = g.into_graph::<usize>();
    petgraph::visit::depth_first_search(
        &g,
        g.node_indices(),
        |event|
            match event {
                petgraph::visit::DfsEvent::BackEdge(_, _) => Err(()),
                _ => Ok(()),
            },
    ).is_err()
}

/// Whether the connections hold a directed cycle.
pub fn detect_cycles(connections: &Vec<GraphConnection>) -> (found: bool)
    ensures
        found == has_cycle(connections@),
{
    has_back_edge(connections)
}

/// Whether two lists of connections have the same ends, place by place.
pub open spec fn same_ends(a: Seq<GraphConnection>, b: Seq<GraphConnection>) -> bool {
    &&& a.len() == b.len()
    &&& forall|i: int|
        0 <= i < a.len() ==> (#[trigger] a[i]).source@ == b[i].source@ && a[i].target@
            == b[i].target@
}

/// A cycle among connections is a cycle among any connections with the
/// same ends.
pub proof fn lemma_cycle_carries_over(a: Seq<GraphConnection>, b: Seq<GraphConnection>)
    requires
        same_ends(a, b),
        has_cycle(a),
    ensures
        has_cycle(b),
{
    let walk = choose|walk: Seq<Seq<char>>|
        walk.len() >= 2 && #[trigger] follows(a, walk) && walk.first() == walk.last();
    assert forall|k: int| 0 <= k < walk.len() - 1 implies connects(
        b,
        #[trigger] walk[k],
        walk[k + 1],
    ) by {
        assert(connects(a, walk[k], walk[k + 1]));
        let i = choose|i: int|
            0 <= i < a.len() && (#[trigger] a[i]).source@ == walk[k] && a[i].target@ == walk[k
                + 1];
        assert(b[i].source@ == walk[k] && b[i].target@ == walk[k + 1]);
    }
    assert(follows(b, walk));
}

/// Whether connections hold a cycle depends on their sources and targets
/// alone: the inputs that they lead to, and their own identifiers, play no
/// part.
pub proof fn law_cycle_depends_on_ends_alone(a: Seq<GraphConnection>, b: Seq<GraphConnection>)
    requires
        same_ends(a, b),
    ensures
        has_cycle(a) == has_cycle(b),
{
    if has_cycle(a) {
        lemma_cycle_carries_over(a, b);
    }
    if has_cycle(b) {
        assert(same_ends(b, a));
        lemma_cycle_carries_over(b, a);
    }
}

/// A connection from a node to itself is a cycle.
pub proof fn law_loop_is_cycle(connections: Seq<GraphConnection>, i: int)
    requires
        0 <= i < connections.len(),
        connections[i].source@ == connections[i].target@,
    ensures
        has_cycle(connections),
{
    let node = connections[i].source@;
    let walk = seq![node, node];
    assert forall|k: int| 0 <= k < walk.len() - 1 implies connects(
        connections,
        #[trigger] walk[k],
        walk[k + 1],
    ) by {
        assert(connections[i].source@ == walk[k] && connections[i].target@ == walk[k + 1]);
    }
    assert(follows(connections, walk));
    assert(walk.len() >= 2 && walk.first() == walk.last());
}

/// Two connections that lead back and forth between two nodes are a
/// cycle.
pub proof fn law_two_way_is_cycle(connections: Seq<GraphConnection>, i: int, j: int)
    requires
        0 <= i < connections.len(),
        0 <= j < connections.len(),
        connections[i].target@ == connections[j].source@,
        connections[j].target@ == connections[i].source@,
    ensures
        has_cycle(connections),
{
    let a = connections[i].source@;
    let b = connections[i].target@;
    let walk = seq![a, b, a];
    assert forall|k: int| 0 <= k < walk.len() - 1 implies connects(
        connections,
        #[trigger] walk[k],
        walk[k + 1],
    ) by {
        if k == 0 {
            assert(connections[i].source@ == walk[k] && connections[i].target@ == walk[k + 1]);
        } else {
            assert(connections[j].source@ == walk[k] && connections[j].target@ == walk[k + 1]);
        }
    }
    assert(follows(connections, walk));
    assert(walk.len() >= 2 && walk.first() == walk.last());
}

} // verus!
