//! What the walk over a graph cannot come to.
//!
//! The walk reports a cycle where it would go deeper than the graph has
//! nodes, or comes back to a node that waits for its inputs. In a graph
//! whose connections hold no cycle neither happens. The walk fails where a
//! sink is asked for an output; in a valid graph with one sink that does not
//! happen either. And the faults that validation looks for are reported by
//! validation alone. All this is shown here.

use vstd::prelude::*;
use crate::graph::Graph;
use crate::graph::GraphConnection;
use crate::graph::errors::GraphErrorView;
use crate::graph::input_at;
use crate::graph::lemma_input_at;
use crate::graph::lemma_node_at;
use crate::graph::lemma_sink_at;
use crate::graph::sink_at;
use crate::graph::node_at;
use crate::graph::nodes::GraphNode;
use crate::graph::nodes::output_kind;
use crate::graph::output::OutputKind;
use crate::graph::process::EndingView;
use crate::graph::process::Step;
use crate::graph::process::first_input;
use crate::graph::process::planned;
use crate::graph::process::second_input;
use crate::graph::process::step_of;
use crate::graph::process::walk_input;
use crate::graph::process::walk_node;
use crate::graph::utils::connects;
use crate::graph::utils::follows;
use crate::graph::utils::has_cycle;
use crate::graph::ends_exist;
use crate::graph::sinks_end;
use crate::graph::validation;

verus! {

/// Whether a walk along connections leads from the node `from` to the node
/// `to`. A node reaches itself.
pub open spec fn reaches(connections: Seq<GraphConnection>, from: Seq<char>, to: Seq<char>) -> bool {
    exists|walk: Seq<Seq<char>>|
        #[trigger] follows(connections, walk) && walk.len() >= 1 && walk.first() == from
            && walk.last() == to
}

/// A node reaches itself.
pub proof fn lemma_reaches_itself(connections: Seq<GraphConnection>, node: Seq<char>)
    ensures
        reaches(connections, node, node),
{
    let walk = seq![node];
    assert(follows(connections, walk));
}

/// A walk can be taken one connection further.
pub proof fn lemma_reaches_further(
    connections: Seq<GraphConnection>,
    from: Seq<char>,
    over: Seq<char>,
    to: Seq<char>,
)
    requires
        reaches(connections, from, over),
        connects(connections, over, to),
    ensures
        reaches(connections, from, to),
{
    let walk = choose|walk: Seq<Seq<char>>|
        #[trigger] follows(connections, walk) && walk.len() >= 1 && walk.first() == from
            && walk.last() == over;
    let longer = walk.push(to);
    assert forall|k: int| 0 <= k < longer.len() - 1 implies connects(
        connections,
        #[trigger] longer[k],
        longer[k + 1],
    ) by {
        if k < walk.len() - 1 {
            assert(connects(connections, walk[k], walk[k + 1]));
        }
    }
    assert(follows(connections, longer));
}

/// A walk that a connection leads back to its start is a cycle.
pub proof fn lemma_walk_back_is_cycle(
    connections: Seq<GraphConnection>,
    from: Seq<char>,
    over: Seq<char>,
)
    requires
        reaches(connections, from, over),
        connects(connections, over, from),
    ensures
        has_cycle(connections),
{
    let walk = choose|walk: Seq<Seq<char>>|
        #[trigger] follows(connections, walk) && walk.len() >= 1 && walk.first() == from
            && walk.last() == over;
    let closed = walk.push(from);
    assert forall|k: int| 0 <= k < closed.len() - 1 implies connects(
        connections,
        #[trigger] closed[k],
        closed[k + 1],
    ) by {
        if k < walk.len() - 1 {
            assert(connects(connections, walk[k], walk[k + 1]));
        }
    }
    assert(follows(connections, closed));
    assert(closed.len() >= 2 && closed.first() == closed.last());
}

/// Whether `chain` is a chain of nodes of the graph, each wired to an input
/// of the one before it.
pub open spec fn is_chain(graph: Graph, chain: Seq<usize>) -> bool {
    &&& chain.len() >= 1
    &&& forall|i: int| 0 <= i < chain.len() ==> (#[trigger] chain[i]) < graph.nodes@.len()
    &&& forall|i: int|
        0 <= i < chain.len() - 1 ==> connects(
            graph.connections@,
            graph.nodes@[(#[trigger] chain[i + 1]) as int].id@,
            graph.nodes@[chain[i] as int].id@,
        )
}

/// A later node of a chain reaches every earlier one.
pub proof fn lemma_chain_reaches(graph: Graph, chain: Seq<usize>, early: int, late: int)
    requires
        is_chain(graph, chain),
        0 <= early <= late < chain.len(),
    ensures
        reaches(
            graph.connections@,
            graph.nodes@[chain[late] as int].id@,
            graph.nodes@[chain[early] as int].id@,
        ),
    decreases late - early,
{
    if early == late {
        lemma_reaches_itself(graph.connections@, graph.nodes@[chain[late] as int].id@);
    } else {
        lemma_chain_reaches(graph, chain, early + 1, late);
        assert(connects(
            graph.connections@,
            graph.nodes@[chain[early + 1] as int].id@,
            graph.nodes@[chain[early] as int].id@,
        ));
        lemma_reaches_further(
            graph.connections@,
            graph.nodes@[chain[late] as int].id@,
            graph.nodes@[chain[early + 1] as int].id@,
            graph.nodes@[chain[early] as int].id@,
        );
    }
}

/// In a graph without a cycle no node stands twice in a chain.
pub proof fn lemma_chain_is_distinct(graph: Graph, chain: Seq<usize>)
    requires
        is_chain(graph, chain),
        !has_cycle(graph.connections@),
    ensures
        forall|i: int, j: int| 0 <= i < j < chain.len() ==> chain[i] != chain[j],
{
    assert forall|i: int, j: int| 0 <= i < j < chain.len() implies chain[i] != chain[j] by {
        if chain[i] == chain[j] {
            lemma_chain_reaches(graph, chain, i + 1, j);
            assert(connects(
                graph.connections@,
                graph.nodes@[chain[i + 1] as int].id@,
                graph.nodes@[chain[i] as int].id@,
            ));
            lemma_walk_back_is_cycle(
                graph.connections@,
                graph.nodes@[chain[j] as int].id@,
                graph.nodes@[chain[i + 1] as int].id@,
            );
        }
    }
}

/// Numbers below `n` of which none stands twice are `n` at most.
pub proof fn lemma_distinct_numbers_are_few(s: Seq<usize>, n: nat)
    requires
        forall|i: int| 0 <= i < s.len() ==> (#[trigger] s[i]) < n,
        forall|i: int, j: int| 0 <= i < j < s.len() ==> s[i] != s[j],
    ensures
        s.len() <= n,
    decreases n,
{
    if n == 0 {
        if s.len() > 0 {
            assert(s[0] < n);
        }
    } else {
        if exists|i: int| 0 <= i < s.len() && s[i] == n - 1 {
            let at = choose|i: int| 0 <= i < s.len() && s[i] == n - 1;
            let rest = s.remove(at);
            assert forall|i: int| 0 <= i < rest.len() implies (#[trigger] rest[i]) < n - 1 by {
                if i < at {
                    assert(rest[i] == s[i]);
                    assert(s[i] != s[at]);
                } else {
                    assert(rest[i] == s[i + 1]);
                    assert(s[at] != s[i + 1]);
                }
            }
            assert forall|i: int, j: int| 0 <= i < j < rest.len() implies rest[i] != rest[j] by {
                let a = if i < at { i } else { i + 1 };
                let b = if j < at { j } else { j + 1 };
                assert(rest[i] == s[a] && rest[j] == s[b]);
            }
            lemma_distinct_numbers_are_few(rest, (n - 1) as nat);
        } else {
            assert forall|i: int| 0 <= i < s.len() implies (#[trigger] s[i]) < n - 1 by {
                assert(s[i] < n);
            }
            lemma_distinct_numbers_are_few(s, (n - 1) as nat);
        }
    }
}

/// A node has a step among `steps` where one of the steps is a step of the
/// node.
pub proof fn lemma_has_step(steps: Seq<Step>, node: usize)
    ensures
        step_of(steps, node) is Some <==> exists|j: int|
            0 <= j < steps.len() && (#[trigger] steps[j]).node == node,
    decreases steps.len(),
{
    if steps.len() > 0 {
        lemma_has_step(steps.drop_last(), node);
        if steps.last().node == node {
            assert(steps[steps.len() - 1].node == node);
        } else if step_of(steps.drop_last(), node) is Some {
            let j = choose|j: int|
                0 <= j < steps.drop_last().len() && (#[trigger] steps.drop_last()[j]).node == node;
            assert(steps[j].node == node);
        } else {
            assert forall|j: int| 0 <= j < steps.len() implies (#[trigger] steps[j]).node
                != node by {
                if j < steps.len() - 1 {
                    assert(steps.drop_last()[j].node != node);
                }
            }
        }
    }
}

/// What a walk adds to the steps `steps`, seen from the node `node` that it
/// was taken for: it reports no cycle, keeps the steps that were there, and
/// adds steps only of nodes that reach `node`.
pub open spec fn adds_within(
    graph: Graph,
    node: usize,
    steps: Seq<Step>,
    after: Seq<Step>,
) -> bool {
    &&& steps.len() <= after.len()
    &&& after.subrange(0, steps.len() as int) == steps
    &&& forall|k: int|
        steps.len() <= k < after.len() ==> reaches(
            graph.connections@,
            graph.nodes@[(#[trigger] after[k]).node as int].id@,
            graph.nodes@[node as int].id@,
        )
}

/// In a graph without a cycle, the walk to a node at the end of a chain
/// reports no cycle, provided the depth left is what the chain has not
/// used.
pub proof fn lemma_walk_node_finds_no_cycle(
    graph: Graph,
    node: usize,
    steps: Seq<Step>,
    depth: nat,
    chain: Seq<usize>,
)
    requires
        !has_cycle(graph.connections@),
        is_chain(graph, chain),
        chain.last() == node,
        chain.len() + depth == graph.nodes@.len() + 1,
    ensures
        walk_node(graph, node, steps, depth).found != Err::<usize, GraphErrorView>(
            GraphErrorView::Cycle,
        ),
        adds_within(graph, node, steps, walk_node(graph, node, steps, depth).steps),
    decreases depth, 0nat,
{
    let connections = graph.connections@;
    let id = graph.nodes@[node as int].id@;
    lemma_chain_is_distinct(graph, chain);
    lemma_distinct_numbers_are_few(chain, graph.nodes@.len());
    assert(depth > 0);
    assert(steps.subrange(0, steps.len() as int) =~= steps);
    if step_of(steps, node) is None && !(graph.nodes@[node as int].node is MapNode) {
        let kind = graph.nodes@[node as int].node;
        let first = walk_input(graph, node, first_input(kind), steps, (depth - 1) as nat);
        lemma_walk_input_finds_no_cycle(
            graph,
            node,
            first_input(kind),
            steps,
            (depth - 1) as nat,
            chain,
        );
        if first.found is Ok {
            let second = walk_input(
                graph,
                node,
                second_input(kind),
                first.steps,
                (depth - 1) as nat,
            );
            lemma_walk_input_finds_no_cycle(
                graph,
                node,
                second_input(kind),
                first.steps,
                (depth - 1) as nat,
                chain,
            );
            assert(second.steps.subrange(0, steps.len() as int) =~= steps) by {
                assert(second.steps.subrange(0, first.steps.len() as int) == first.steps);
                assert(first.steps.subrange(0, steps.len() as int) == steps);
            }
            assert forall|k: int| steps.len() <= k < second.steps.len() implies reaches(
                connections,
                graph.nodes@[(#[trigger] second.steps[k]).node as int].id@,
                id,
            ) && second.steps[k].node != node by {
                if k < first.steps.len() {
                    assert(second.steps[k] == first.steps[k]) by {
                        assert(second.steps.subrange(0, first.steps.len() as int)[k]
                            == second.steps[k]);
                    }
                }
            }
            if second.found is Ok && !(kind is InViewOf) {
                lemma_has_step(steps, node);
                lemma_has_step(second.steps, node);
                if step_of(second.steps, node) is Some {
                    let j = choose|j: int|
                        0 <= j < second.steps.len() && (#[trigger] second.steps[j]).node == node;
                    if j < steps.len() {
                        assert(second.steps.subrange(0, steps.len() as int)[j] == second.steps[j]);
                        assert(steps[j].node == node);
                    }
                }
                assert(step_of(second.steps, node) is None);
                let after = second.steps.push(
                    Step { node, first: first.found->Ok_0, second: second.found->Ok_0 },
                );
                lemma_reaches_itself(connections, id);
                assert(after.subrange(0, steps.len() as int) =~= steps);
                assert(walk_node(graph, node, steps, depth).steps == after);
            }
        }
    }
}

/// In a graph without a cycle, the walk to an input of the node at the end
/// of a chain reports no cycle, and adds no step of that node.
pub proof fn lemma_walk_input_finds_no_cycle(
    graph: Graph,
    node: usize,
    input: Option<(Seq<char>, OutputKind)>,
    steps: Seq<Step>,
    depth: nat,
    chain: Seq<usize>,
)
    requires
        !has_cycle(graph.connections@),
        is_chain(graph, chain),
        chain.last() == node,
        chain.len() + depth == graph.nodes@.len(),
    ensures
        walk_input(graph, node, input, steps, depth).found != Err::<
            Option<usize>,
            GraphErrorView,
        >(GraphErrorView::Cycle),
        adds_within(graph, node, steps, walk_input(graph, node, input, steps, depth).steps),
        forall|k: int|
            steps.len() <= k < walk_input(graph, node, input, steps, depth).steps.len() ==> (
            #[trigger] walk_input(graph, node, input, steps, depth).steps[k]).node != node,
    decreases depth, 1nat,
{
    let connections = graph.connections@;
    let id = graph.nodes@[node as int].id@;
    assert(steps.subrange(0, steps.len() as int) =~= steps);
    reveal_strlit("geojson");
    reveal_strlit("query");
    if input is Some {
        let wanted = input->0;
        let name = wanted.0;
        lemma_input_at(connections, id, name);
        if input_at(connections, id, name) is Some {
            let c = input_at(connections, id, name)->0;
            lemma_node_at(graph.nodes@, connections[c].source@);
            if node_at(graph.nodes@, connections[c].source@) is Some {
                let source = node_at(graph.nodes@, connections[c].source@)->0;
                let source_id = graph.nodes@[source].id@;
                assert(graph.nodes@.len() == graph.nodes.len());
                assert((source as usize) as int == source);
                assert(connects(connections, source_id, id)) by {
                    assert(connections[c].source@ == source_id && connections[c].target@ == id);
                }
                let longer = chain.push(source as usize);
                assert(is_chain(graph, longer)) by {
                    assert forall|i: int| 0 <= i < longer.len() - 1 implies connects(
                        connections,
                        graph.nodes@[(#[trigger] longer[i + 1]) as int].id@,
                        graph.nodes@[longer[i] as int].id@,
                    ) by {
                        if i < chain.len() - 1 {
                            assert(longer[i + 1] == chain[i + 1] && longer[i] == chain[i]);
                        } else {
                            assert(longer[i + 1] == source as usize && longer[i] == node);
                        }
                    }
                }
                lemma_walk_node_finds_no_cycle(graph, source as usize, steps, depth, longer);
                let walk = walk_node(graph, source as usize, steps, depth);
                assert forall|k: int| steps.len() <= k < walk.steps.len() implies reaches(
                    connections,
                    graph.nodes@[(#[trigger] walk.steps[k]).node as int].id@,
                    id,
                ) && walk.steps[k].node != node by {
                    let other = graph.nodes@[walk.steps[k].node as int].id@;
                    assert(reaches(connections, other, source_id));
                    lemma_reaches_further(connections, other, source_id, id);
                    if walk.steps[k].node == node {
                        lemma_walk_back_is_cycle(connections, id, source_id);
                    }
                }
            }
        }
    }
}

/// A graph whose connections hold no cycle is never refused for a cycle:
/// its evaluation does not end with the error `Cycle`.
pub proof fn law_cycle_is_reported_for_cycles_only(graph: Graph)
    requires
        !has_cycle(graph.connections@),
    ensures
        planned(graph).ending != EndingView::Failed(GraphErrorView::Cycle),
{
    reveal_strlit("geojson");
    reveal_strlit("query");
    match crate::graph::validation(graph) {
        Err(_) => {},
        Ok(sink) => {
            if input_at(graph.connections@, sink, "in"@) is Some {
                let c = input_at(graph.connections@, sink, "in"@)->0;
                lemma_input_at(graph.connections@, sink, "in"@);
                lemma_node_at(graph.nodes@, graph.connections@[c].source@);
                if node_at(graph.nodes@, graph.connections@[c].source@) is Some {
                    let source = node_at(graph.nodes@, graph.connections@[c].source@)->0;
                    assert(graph.nodes@.len() == graph.nodes.len());
                    assert((source as usize) as int == source);
                    let chain = seq![source as usize];
                    assert(is_chain(graph, chain));
                    lemma_walk_node_finds_no_cycle(
                        graph,
                        source as usize,
                        Seq::empty(),
                        graph.nodes@.len(),
                        chain,
                    );
                }
            }
        },
    }
}

/// Whether every one of `steps` is a step of a node that gives an output.
pub open spec fn give_output(nodes: Seq<GraphNode>, steps: Seq<Step>) -> bool {
    forall|k: int|
        0 <= k < steps.len() ==> (#[trigger] steps[k]).node < nodes.len() && output_kind(
            nodes[steps[k].node as int].node,
        ) is Some
}

/// Whether a walk failed because a node without an output was asked for
/// one.
pub open spec fn asked_in_vain<T>(found: Result<T, GraphErrorView>) -> bool {
    found is Err && found->Err_0 is NoOutput
}

/// Where no connection leads out of a sink, the walk to a node that is no
/// sink never asks a node in vain, and a node that it finds a step for
/// gives an output.
pub proof fn lemma_walk_node_asks_no_sink(graph: Graph, node: usize, steps: Seq<Step>, depth: nat)
    requires
        sinks_end(graph),
        node < graph.nodes@.len(),
        !(graph.nodes@[node as int].node is MapNode),
        give_output(graph.nodes@, steps),
    ensures
        !asked_in_vain(walk_node(graph, node, steps, depth).found),
        walk_node(graph, node, steps, depth).found is Ok ==> output_kind(
            graph.nodes@[node as int].node,
        ) is Some,
        give_output(graph.nodes@, walk_node(graph, node, steps, depth).steps),
    decreases depth, 0nat,
{
    if depth > 0 {
        lemma_has_step(steps, node);
        if step_of(steps, node) is None {
            let kind = graph.nodes@[node as int].node;
            let first = walk_input(graph, node, first_input(kind), steps, (depth - 1) as nat);
            lemma_walk_input_asks_no_sink(
                graph,
                node,
                first_input(kind),
                steps,
                (depth - 1) as nat,
            );
            if first.found is Ok {
                lemma_walk_input_asks_no_sink(
                    graph,
                    node,
                    second_input(kind),
                    first.steps,
                    (depth - 1) as nat,
                );
            }
        }
    }
}

/// Where no connection leads out of a sink, the walk to an input never asks
/// a node in vain.
pub proof fn lemma_walk_input_asks_no_sink(
    graph: Graph,
    node: usize,
    input: Option<(Seq<char>, OutputKind)>,
    steps: Seq<Step>,
    depth: nat,
)
    requires
        sinks_end(graph),
        node < graph.nodes@.len(),
        give_output(graph.nodes@, steps),
    ensures
        !asked_in_vain(walk_input(graph, node, input, steps, depth).found),
        give_output(graph.nodes@, walk_input(graph, node, input, steps, depth).steps),
    decreases depth, 1nat,
{
    let connections = graph.connections@;
    let id = graph.nodes@[node as int].id@;
    if input is Some {
        let wanted = input->0;
        let name = wanted.0;
        lemma_input_at(connections, id, name);
        if input_at(connections, id, name) is Some {
            let c = input_at(connections, id, name)->0;
            lemma_node_at(graph.nodes@, connections[c].source@);
            if node_at(graph.nodes@, connections[c].source@) is Some {
                let source = node_at(graph.nodes@, connections[c].source@)->0;
                assert(graph.nodes@.len() == graph.nodes.len());
                assert((source as usize) as int == source);
                assert(!(graph.nodes@[source].node is MapNode)) by {
                    assert(node_at(graph.nodes@, (#[trigger] connections[c]).source@) == Some(
                        source,
                    ));
                }
                lemma_walk_node_asks_no_sink(graph, source as usize, steps, depth);
            }
        }
    }
}

/// Where no connection leads out of a sink, no node is asked in vain: the
/// evaluation does not end with the error `NoOutput`.
pub proof fn law_sink_is_never_asked(graph: Graph)
    requires
        sinks_end(graph),
    ensures
        !(planned(graph).ending is Failed && planned(graph).ending->Failed_0 is NoOutput),
{
    match validation(graph) {
        Err(_) => {},
        Ok(sink) => {
            if input_at(graph.connections@, sink, "in"@) is Some {
                let c = input_at(graph.connections@, sink, "in"@)->0;
                lemma_input_at(graph.connections@, sink, "in"@);
                lemma_node_at(graph.nodes@, graph.connections@[c].source@);
                if node_at(graph.nodes@, graph.connections@[c].source@) is Some {
                    let source = node_at(graph.nodes@, graph.connections@[c].source@)->0;
                    assert(graph.nodes@.len() == graph.nodes.len());
                    assert((source as usize) as int == source);
                    assert(!(graph.nodes@[source].node is MapNode)) by {
                        assert(node_at(
                            graph.nodes@,
                            (#[trigger] graph.connections@[c]).source@,
                        ) == Some(source));
                    }
                    lemma_walk_node_asks_no_sink(
                        graph,
                        source as usize,
                        Seq::empty(),
                        graph.nodes@.len(),
                    );
                }
            }
        },
    }
}

/// Whether the node at `sink` is the only sink among `nodes`.
pub open spec fn only_sink(nodes: Seq<GraphNode>, sink: int) -> bool {
    forall|i: int| 0 <= i < nodes.len() && (#[trigger] nodes[i]).node is MapNode ==> i == sink
}

/// In a graph without a cycle and with one sink, the walk along a chain of
/// nodes that leads to the sink never comes to the sink, so it asks no node
/// in vain.
pub proof fn lemma_walk_node_stays_off_the_sink(
    graph: Graph,
    node: usize,
    steps: Seq<Step>,
    depth: nat,
    chain: Seq<usize>,
    sink: int,
)
    requires
        !has_cycle(graph.connections@),
        0 <= sink < graph.nodes@.len(),
        only_sink(graph.nodes@, sink),
        is_chain(graph, chain),
        chain.last() == node,
        connects(
            graph.connections@,
            graph.nodes@[chain[0] as int].id@,
            graph.nodes@[sink].id@,
        ),
        !(graph.nodes@[node as int].node is MapNode),
        give_output(graph.nodes@, steps),
    ensures
        !asked_in_vain(walk_node(graph, node, steps, depth).found),
        walk_node(graph, node, steps, depth).found is Ok ==> output_kind(
            graph.nodes@[node as int].node,
        ) is Some,
        give_output(graph.nodes@, walk_node(graph, node, steps, depth).steps),
    decreases depth, 0nat,
{
    if depth > 0 {
        lemma_has_step(steps, node);
        if step_of(steps, node) is None {
            let kind = graph.nodes@[node as int].node;
            let first = walk_input(graph, node, first_input(kind), steps, (depth - 1) as nat);
            lemma_walk_input_stays_off_the_sink(
                graph,
                node,
                first_input(kind),
                steps,
                (depth - 1) as nat,
                chain,
                sink,
            );
            if first.found is Ok {
                lemma_walk_input_stays_off_the_sink(
                    graph,
                    node,
                    second_input(kind),
                    first.steps,
                    (depth - 1) as nat,
                    chain,
                    sink,
                );
            }
        }
    }
}

/// In a graph without a cycle and with one sink, the walk to an input of a
/// node on a chain that leads to the sink asks no node in vain.
pub proof fn lemma_walk_input_stays_off_the_sink(
    graph: Graph,
    node: usize,
    input: Option<(Seq<char>, OutputKind)>,
    steps: Seq<Step>,
    depth: nat,
    chain: Seq<usize>,
    sink: int,
)
    requires
        !has_cycle(graph.connections@),
        0 <= sink < graph.nodes@.len(),
        only_sink(graph.nodes@, sink),
        is_chain(graph, chain),
        chain.last() == node,
        connects(
            graph.connections@,
            graph.nodes@[chain[0] as int].id@,
            graph.nodes@[sink].id@,
        ),
        give_output(graph.nodes@, steps),
    ensures
        !asked_in_vain(walk_input(graph, node, input, steps, depth).found),
        give_output(graph.nodes@, walk_input(graph, node, input, steps, depth).steps),
    decreases depth, 1nat,
{
    let connections = graph.connections@;
    let id = graph.nodes@[node as int].id@;
    if input is Some {
        let wanted = input->0;
        let name = wanted.0;
        lemma_input_at(connections, id, name);
        if input_at(connections, id, name) is Some {
            let c = input_at(connections, id, name)->0;
            lemma_node_at(graph.nodes@, connections[c].source@);
            if node_at(graph.nodes@, connections[c].source@) is Some {
                let source = node_at(graph.nodes@, connections[c].source@)->0;
                let source_id = graph.nodes@[source].id@;
                assert(graph.nodes@.len() == graph.nodes.len());
                assert((source as usize) as int == source);
                assert(connects(connections, source_id, id)) by {
                    assert(connections[c].source@ == source_id && connections[c].target@ == id);
                }
                let longer = chain.push(source as usize);
                assert(is_chain(graph, longer)) by {
                    assert forall|i: int| 0 <= i < longer.len() - 1 implies connects(
                        connections,
                        graph.nodes@[(#[trigger] longer[i + 1]) as int].id@,
                        graph.nodes@[longer[i] as int].id@,
                    ) by {
                        if i < chain.len() - 1 {
                            assert(longer[i + 1] == chain[i + 1] && longer[i] == chain[i]);
                        } else {
                            assert(longer[i + 1] == source as usize && longer[i] == node);
                        }
                    }
                }
                assert(longer[0] == chain[0]);
                if graph.nodes@[source].node is MapNode {
                    assert(source == sink);
                    lemma_chain_reaches(graph, longer, 0, longer.len() - 1);
                    lemma_walk_back_is_cycle(
                        connections,
                        source_id,
                        graph.nodes@[chain[0] as int].id@,
                    );
                }
                lemma_walk_node_stays_off_the_sink(
                    graph,
                    source as usize,
                    steps,
                    depth,
                    longer,
                    sink,
                );
            }
        }
    }
}

/// In a valid graph with one sink no node is asked in vain: the evaluation
/// does not end with the error `NoOutput`. Only a graph with a second sink,
/// wired like a node with an output, can end so.
pub proof fn law_one_sink_is_never_asked(graph: Graph)
    requires
        validation(graph) is Ok,
        only_sink(graph.nodes@, sink_at(graph.nodes@)->0),
    ensures
        !(planned(graph).ending is Failed && planned(graph).ending->Failed_0 is NoOutput),
{
    let connections = graph.connections@;
    let sink = sink_at(graph.nodes@)->0;
    lemma_sink_at(graph.nodes@);
    let sink_id = graph.nodes@[sink].id@;
    if input_at(connections, sink_id, "in"@) is Some {
        let c = input_at(connections, sink_id, "in"@)->0;
        lemma_input_at(connections, sink_id, "in"@);
        lemma_node_at(graph.nodes@, connections[c].source@);
        if node_at(graph.nodes@, connections[c].source@) is Some {
            let source = node_at(graph.nodes@, connections[c].source@)->0;
            let source_id = graph.nodes@[source].id@;
            assert(graph.nodes@.len() == graph.nodes.len());
            assert((source as usize) as int == source);
            assert(connects(connections, source_id, sink_id)) by {
                assert(connections[c].source@ == source_id && connections[c].target@ == sink_id);
            }
            let chain = seq![source as usize];
            assert(is_chain(graph, chain));
            if graph.nodes@[source].node is MapNode {
                assert(source == sink);
                lemma_reaches_itself(connections, sink_id);
                lemma_walk_back_is_cycle(connections, sink_id, sink_id);
            }
            lemma_walk_node_stays_off_the_sink(
                graph,
                source as usize,
                Seq::empty(),
                graph.nodes@.len(),
                chain,
                sink,
            );
        }
    }
}

/// The walk to a node never fails for want of a sink: whether a graph has
/// a sink is for validation to say.
pub proof fn lemma_walk_node_misses_no_sink(graph: Graph, node: usize, steps: Seq<Step>, depth: nat)
    ensures
        walk_node(graph, node, steps, depth).found != Err::<usize, GraphErrorView>(
            GraphErrorView::MapMissing,
        ),
    decreases depth, 0nat,
{
    if depth > 0 && step_of(steps, node) is None && !(graph.nodes@[node as int].node is MapNode) {
        let kind = graph.nodes@[node as int].node;
        let first = walk_input(graph, node, first_input(kind), steps, (depth - 1) as nat);
        lemma_walk_input_misses_no_sink(graph, node, first_input(kind), steps, (depth - 1) as nat);
        if first.found is Ok {
            lemma_walk_input_misses_no_sink(
                graph,
                node,
                second_input(kind),
                first.steps,
                (depth - 1) as nat,
            );
        }
    }
}

/// The walk to an input never fails for want of a sink.
pub proof fn lemma_walk_input_misses_no_sink(
    graph: Graph,
    node: usize,
    input: Option<(Seq<char>, OutputKind)>,
    steps: Seq<Step>,
    depth: nat,
)
    ensures
        walk_input(graph, node, input, steps, depth).found != Err::<
            Option<usize>,
            GraphErrorView,
        >(GraphErrorView::MapMissing),
    decreases depth, 1nat,
{
    let connections = graph.connections@;
    let id = graph.nodes@[node as int].id@;
    if input is Some {
        let wanted = input->0;
        let name = wanted.0;
        if input_at(connections, id, name) is Some {
            let c = input_at(connections, id, name)->0;
            if node_at(graph.nodes@, connections[c].source@) is Some {
                let source = node_at(graph.nodes@, connections[c].source@)->0;
                lemma_walk_node_misses_no_sink(graph, source as usize, steps, depth);
            }
        }
    }
}

/// Where both ends of every connection are nodes of the graph, the walk to
/// a node never fails for a node that is not there.
pub proof fn lemma_walk_node_finds_every_node(
    graph: Graph,
    node: usize,
    steps: Seq<Step>,
    depth: nat,
)
    requires
        ends_exist(graph.nodes@, graph.connections@),
    ensures
        walk_node(graph, node, steps, depth).found != Err::<usize, GraphErrorView>(
            GraphErrorView::ConnectionNodeMissing,
        ),
    decreases depth, 0nat,
{
    if depth > 0 && step_of(steps, node) is None {
        let kind = graph.nodes@[node as int].node;
        let first = walk_input(graph, node, first_input(kind), steps, (depth - 1) as nat);
        lemma_walk_input_finds_every_node(
            graph,
            node,
            first_input(kind),
            steps,
            (depth - 1) as nat,
        );
        if first.found is Ok {
            lemma_walk_input_finds_every_node(
                graph,
                node,
                second_input(kind),
                first.steps,
                (depth - 1) as nat,
            );
        }
    }
}

/// Where both ends of every connection are nodes of the graph, the walk to
/// an input never fails for a node that is not there.
pub proof fn lemma_walk_input_finds_every_node(
    graph: Graph,
    node: usize,
    input: Option<(Seq<char>, OutputKind)>,
    steps: Seq<Step>,
    depth: nat,
)
    requires
        ends_exist(graph.nodes@, graph.connections@),
    ensures
        walk_input(graph, node, input, steps, depth).found != Err::<
            Option<usize>,
            GraphErrorView,
        >(GraphErrorView::ConnectionNodeMissing),
    decreases depth, 1nat,
{
    let connections = graph.connections@;
    let id = graph.nodes@[node as int].id@;
    reveal_strlit("geojson");
    reveal_strlit("query");
    if input is Some {
        let wanted = input->0;
        let name = wanted.0;
        lemma_input_at(connections, id, name);
        if input_at(connections, id, name) is Some {
            let c = input_at(connections, id, name)->0;
            assert(node_at(graph.nodes@, (#[trigger] connections[c]).source@) is Some);
            let source = node_at(graph.nodes@, connections[c].source@)->0;
            lemma_walk_node_finds_every_node(graph, source as usize, steps, depth);
        }
    }
}

/// A connection to or from a node that is not there is found by
/// validation, before the walk: an evaluation that ends with
/// `ConnectionNodeMissing` has no step.
pub proof fn law_missing_node_is_found_first(graph: Graph)
    requires
        planned(graph).ending == EndingView::Failed(GraphErrorView::ConnectionNodeMissing),
    ensures
        validation(graph) == Err::<Seq<char>, GraphErrorView>(
            GraphErrorView::ConnectionNodeMissing,
        ),
        planned(graph).steps.len() == 0,
{
    reveal_strlit("geojson");
    reveal_strlit("query");
    match validation(graph) {
        Err(_) => {},
        Ok(sink) => {
            if input_at(graph.connections@, sink, "in"@) is Some {
                let c = input_at(graph.connections@, sink, "in"@)->0;
                lemma_input_at(graph.connections@, sink, "in"@);
                assert(node_at(graph.nodes@, (#[trigger] graph.connections@[c]).source@) is Some);
                let source = node_at(graph.nodes@, graph.connections@[c].source@)->0;
                lemma_walk_node_finds_every_node(
                    graph,
                    source as usize,
                    Seq::empty(),
                    graph.nodes@.len(),
                );
            }
        },
    }
}

/// The three faults of a graph are told by validation and by nothing else:
/// an evaluation ends with `Cycle` where and only where the connections
/// hold a cycle; with `MapMissing` where and only where they hold none and
/// the graph has no sink; with `ConnectionNodeMissing` where and only where
/// they hold no cycle, the graph has a sink, and an end of a connection is
/// no node. In each of these cases nothing is planned.
pub proof fn law_validation_decides(graph: Graph)
    ensures
        planned(graph).ending == EndingView::Failed(GraphErrorView::Cycle) <==> has_cycle(
            graph.connections@,
        ),
        planned(graph).ending == EndingView::Failed(GraphErrorView::MapMissing) <==> !has_cycle(
            graph.connections@,
        ) && sink_at(graph.nodes@) is None,
        planned(graph).ending == EndingView::Failed(GraphErrorView::ConnectionNodeMissing)
            <==> !has_cycle(graph.connections@) && sink_at(graph.nodes@) is Some && !ends_exist(
            graph.nodes@,
            graph.connections@,
        ),
        validation(graph) is Err ==> planned(graph).steps.len() == 0,
        validation(graph) matches Err(e) ==> planned(graph).ending == EndingView::Failed(e),
{
    reveal_strlit("geojson");
    reveal_strlit("query");
    if !has_cycle(graph.connections@) {
        law_cycle_is_reported_for_cycles_only(graph);
    }
    match validation(graph) {
        Err(_) => {},
        Ok(sink) => {
            if input_at(graph.connections@, sink, "in"@) is Some {
                let c = input_at(graph.connections@, sink, "in"@)->0;
                lemma_input_at(graph.connections@, sink, "in"@);
                assert(node_at(graph.nodes@, (#[trigger] graph.connections@[c]).source@) is Some);
                let source = node_at(graph.nodes@, graph.connections@[c].source@)->0;
                lemma_walk_node_misses_no_sink(
                    graph,
                    source as usize,
                    Seq::empty(),
                    graph.nodes@.len(),
                );
                lemma_walk_node_finds_every_node(
                    graph,
                    source as usize,
                    Seq::empty(),
                    graph.nodes@.len(),
                );
            }
        },
    }
}

} // verus!
