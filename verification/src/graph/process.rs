//! Evaluation of a graph.
//!
//! A graph is evaluated from its sink backwards. The node wired to the
//! sink is asked for its output; to give it, a node first asks the nodes
//! wired to its inputs, in the order of the inputs. A node is asked once,
//! however many nodes it feeds.
//!
//! The walk depends on the graph alone, so it is taken before anything is
//! computed: it gives the plan, the nodes in the order in which they
//! compute. The plan is then carried out step by step. What a node needs
//! from outside the library, the caller is asked for.

use vstd::prelude::*;
use vstd::string::*;
use crate::geojson::FeatureCollection;
use crate::geojson::FeatureView;
use crate::graph::Graph;
use crate::graph::errors::GraphError;
use crate::graph::errors::GraphErrorView;
use crate::graph::input_at;
use crate::graph::node_at;
use crate::graph::nodes::GraphNode;
use crate::graph::nodes::GraphNodeInternal;
use crate::graph::nodes::output_kind;
use crate::graph::nodes::oql_difference::difference_text;
use crate::graph::nodes::oql_statement::statement_text;
use crate::graph::nodes::oql_union::union_text;
use crate::graph::output::NodeOutput;
use crate::graph::output::NodeOutputView;
use crate::graph::output::OutputKind;
use crate::graph::output::wrong_input;
use crate::graph::utils::has_cycle;
use crate::graph::acyclic::law_validation_decides;
use crate::graph::ends_exist;
use crate::graph::sink_at;
use crate::graph::validation;
use crate::search::GeocodeaArea;
use crate::search::GeocodeaAreaView;
use crate::search::append_areas;
use crate::search::areas_view;

verus! {

/// One computation of a plan: the node that computes, by its place among
/// the nodes of the graph, and for each of its inputs the step that gives
/// it.
#[derive(Clone, Copy, Debug, PartialEq, Eq)]
pub struct Step {
    pub node: usize,
    pub first: Option<usize>,
    pub second: Option<usize>,
}

/// An input of a node: its name and the kind of output that it takes.
#[derive(Clone, Copy, Debug)]
pub struct Input {
    pub name: &'static str,
    pub kind: OutputKind,
}

/// The first input of a node, where it has an input.
pub open spec fn first_input(node: GraphNodeInternal) -> Option<(Seq<char>, OutputKind)> {
    match node {
        GraphNodeInternal::MapNode(_) => None,
        GraphNodeInternal::Oql(_) => None,
        GraphNodeInternal::OqlStatement(_) => None,
        GraphNodeInternal::OqlUnion(_) => Some(("a"@, OutputKind::Query)),
        GraphNodeInternal::OqlDifference(_) => Some(("a"@, OutputKind::Query)),
        GraphNodeInternal::Overpass(_) => Some(("query"@, OutputKind::Query)),
        GraphNodeInternal::RoadAngleFilter(_) => Some(("in"@, OutputKind::Features)),
        GraphNodeInternal::RoadLengthFilter(_) => Some(("in"@, OutputKind::Features)),
        GraphNodeInternal::ElevationFilter(_) => Some(("in"@, OutputKind::Features)),
        GraphNodeInternal::Union(_) => Some(("a"@, OutputKind::Features)),
        GraphNodeInternal::InViewOf(_) => Some(("in"@, OutputKind::Features)),
    }
}

/// The second input of a node, where it has two.
pub open spec fn second_input(node: GraphNodeInternal) -> Option<(Seq<char>, OutputKind)> {
    match node {
        GraphNodeInternal::OqlUnion(_) => Some(("b"@, OutputKind::Query)),
        GraphNodeInternal::OqlDifference(_) => Some(("b"@, OutputKind::Query)),
        GraphNodeInternal::Union(_) => Some(("b"@, OutputKind::Features)),
        GraphNodeInternal::InViewOf(_) => Some(("aux"@, OutputKind::Features)),
        _ => None,
    }
}

/// An input by its view.
pub open spec fn input_view(input: Option<Input>) -> Option<(Seq<char>, OutputKind)> {
    match input {
        Some(i) => Some((i.name@, i.kind)),
        None => None,
    }
}

/// The inputs of a node.
pub fn inputs_of(node: &GraphNodeInternal) -> (inputs: (Option<Input>, Option<Input>))
    ensures
        input_view(inputs.0) == first_input(*node),
        input_view(inputs.1) == second_input(*node),
{
    match node {
        GraphNodeInternal::MapNode(_) => (None, None),
        GraphNodeInternal::Oql(_) => (None, None),
        GraphNodeInternal::OqlStatement(_) => (None, None),
        GraphNodeInternal::OqlUnion(_) => (
            Some(Input { name: "a", kind: OutputKind::Query }),
            Some(Input { name: "b", kind: OutputKind::Query }),
        ),
        GraphNodeInternal::OqlDifference(_) => (
            Some(Input { name: "a", kind: OutputKind::Query }),
            Some(Input { name: "b", kind: OutputKind::Query }),
        ),
        GraphNodeInternal::Overpass(_) => (
            Some(Input { name: "query", kind: OutputKind::Query }),
            None,
        ),
        GraphNodeInternal::RoadAngleFilter(_) => (
            Some(Input { name: "in", kind: OutputKind::Features }),
            None,
        ),
        GraphNodeInternal::RoadLengthFilter(_) => (
            Some(Input { name: "in", kind: OutputKind::Features }),
            None,
        ),
        GraphNodeInternal::ElevationFilter(_) => (
            Some(Input { name: "in", kind: OutputKind::Features }),
            None,
        ),
        GraphNodeInternal::Union(_) => (
            Some(Input { name: "a", kind: OutputKind::Features }),
            Some(Input { name: "b", kind: OutputKind::Features }),
        ),
        GraphNodeInternal::InViewOf(_) => (
            Some(Input { name: "in", kind: OutputKind::Features }),
            Some(Input { name: "aux", kind: OutputKind::Features }),
        ),
    }
}

/// The kind of output of a node.
pub fn kind_of_output(node: &GraphNodeInternal) -> (kind: Option<OutputKind>)
    ensures
        kind == output_kind(*node),
{
    match node {
        GraphNodeInternal::MapNode(_) => None,
        GraphNodeInternal::InViewOf(_) => None,
        GraphNodeInternal::Oql(_) => Some(OutputKind::Query),
        GraphNodeInternal::OqlStatement(_) => Some(OutputKind::Query),
        GraphNodeInternal::OqlUnion(_) => Some(OutputKind::Query),
        GraphNodeInternal::OqlDifference(_) => Some(OutputKind::Query),
        GraphNodeInternal::Overpass(_) => Some(OutputKind::Features),
        GraphNodeInternal::RoadAngleFilter(_) => Some(OutputKind::Features),
        GraphNodeInternal::RoadLengthFilter(_) => Some(OutputKind::Features),
        GraphNodeInternal::ElevationFilter(_) => Some(OutputKind::Features),
        GraphNodeInternal::Union(_) => Some(OutputKind::Features),
    }
}

/// Where the step of the node `node` stands among `steps`.
pub open spec fn step_of(steps: Seq<Step>, node: usize) -> Option<usize>
    decreases steps.len(),
{
    if steps.len() == 0 {
        None
    } else if steps.last().node == node {
        Some((steps.len() - 1) as usize)
    } else {
        step_of(steps.drop_last(), node)
    }
}

/// What `step_of` finds is a step of the node, and it finds one where there
/// is one.
pub proof fn lemma_step_of(steps: Seq<Step>, node: usize)
    requires
        steps.len() <= usize::MAX,
    ensures
        match step_of(steps, node) {
            Some(k) => k < steps.len() && steps[k as int].node == node,
            None => forall|j: int| 0 <= j < steps.len() ==> steps[j].node != node,
        },
    decreases steps.len(),
{
    if steps.len() > 0 {
        lemma_step_of(steps.drop_last(), node);
        assert(forall|j: int| 0 <= j < steps.len() - 1 ==> steps.drop_last()[j] == steps[j]);
    }
}

/// How far a walk got: the steps so far, and the step that gives what was
/// asked for, or why there is none.
pub struct Walk {
    pub steps: Seq<Step>,
    pub found: Result<usize, GraphErrorView>,
}

/// How far the walk to an input got. A node without the input has nothing
/// to ask for.
pub struct InputWalk {
    pub steps: Seq<Step>,
    pub found: Result<Option<usize>, GraphErrorView>,
}

/// The walk that asks the node `node` for its output, after the steps
/// `steps`. A node that has a step is not asked again. A sink has no output
/// to ask for, and fails. Otherwise the inputs of the node are walked, the
/// first before the second, and the first failure ends the walk; then the
/// node gets its step, unless it is of the reserved kind, which fails.
///
/// `depth` bounds how deep the walk may go. A walk that would go deeper, or
/// that comes back to a node while it waits for its inputs, reports a
/// cycle. Started with as much depth as the graph has nodes, it does so
/// only where the connections hold a cycle.
pub open spec fn walk_node(graph: Graph, node: usize, steps: Seq<Step>, depth: nat) -> Walk
    decreases depth, 0nat,
{
    if depth == 0 {
        Walk { steps, found: Err(GraphErrorView::Cycle) }
    } else {
        match step_of(steps, node) {
            Some(k) => Walk { steps, found: Ok(k) },
            None => if graph.nodes@[node as int].node is MapNode {
                Walk {
                    steps,
                    found: Err(GraphErrorView::NoOutput { node_id: graph.nodes@[node as int].id@ }),
                }
            } else {
                let kind = graph.nodes@[node as int].node;
                let first = walk_input(graph, node, first_input(kind), steps, (depth - 1) as nat);
                match first.found {
                    Err(e) => Walk { steps: first.steps, found: Err(e) },
                    Ok(a) => {
                        let second = walk_input(
                            graph,
                            node,
                            second_input(kind),
                            first.steps,
                            (depth - 1) as nat,
                        );
                        match second.found {
                            Err(e) => Walk { steps: second.steps, found: Err(e) },
                            Ok(b) => if kind is InViewOf {
                                Walk {
                                    steps: second.steps,
                                    found: Err(
                                        GraphErrorView::NotImplemented {
                                            node_id: graph.nodes@[node as int].id@,
                                        },
                                    ),
                                }
                            } else if step_of(second.steps, node) is Some {
                                Walk { steps: second.steps, found: Err(GraphErrorView::Cycle) }
                            } else {
                                Walk {
                                    steps: second.steps.push(Step { node, first: a, second: b }),
                                    found: Ok(second.steps.len() as usize),
                                }
                            },
                        }
                    },
                }
            },
        }
    }
}

/// The walk to the input `input` of the node `node`: the connection to the
/// input is looked up, then the node at its source, which is asked for its
/// output; the output must be of the kind that the input takes, and a
/// source that has no output fails.
pub open spec fn walk_input(
    graph: Graph,
    node: usize,
    input: Option<(Seq<char>, OutputKind)>,
    steps: Seq<Step>,
    depth: nat,
) -> InputWalk
    decreases depth, 1nat,
{
    match input {
        None => InputWalk { steps, found: Ok(None) },
        Some((name, kind)) => match input_at(
            graph.connections@,
            graph.nodes@[node as int].id@,
            name,
        ) {
            None => InputWalk {
                steps,
                found: Err(
                    GraphErrorView::InputMissing { node_id: graph.nodes@[node as int].id@ },
                ),
            },
            Some(c) => match node_at(graph.nodes@, graph.connections@[c].source@) {
                None => InputWalk { steps, found: Err(GraphErrorView::ConnectionNodeMissing) },
                Some(source) => {
                    let walk = walk_node(graph, source as usize, steps, depth);
                    match walk.found {
                        Err(e) => InputWalk { steps: walk.steps, found: Err(e) },
                        Ok(k) => match output_kind(graph.nodes@[source].node) {
                            Some(got) => if got == kind {
                                InputWalk { steps: walk.steps, found: Ok(Some(k)) }
                            } else {
                                InputWalk {
                                    steps: walk.steps,
                                    found: Err(wrong_input(got, kind)),
                                }
                            },
                            None => InputWalk {
                                steps: walk.steps,
                                found: Err(
                                    GraphErrorView::NoOutput { node_id: graph.nodes@[source].id@ },
                                ),
                            },
                        },
                    }
                },
            },
        },
    }
}

/// Whether the step `input` gives what the input `wanted` of the `k`-th
/// step takes: an earlier step, of a node with an output of the right kind.
pub open spec fn input_fits(
    nodes: Seq<GraphNode>,
    steps: Seq<Step>,
    k: int,
    input: Option<usize>,
    wanted: Option<(Seq<char>, OutputKind)>,
) -> bool {
    match wanted {
        None => input is None,
        Some((_, kind)) => input matches Some(j) && j < k && output_kind(
            nodes[steps[j as int].node as int].node,
        ) == Some(kind),
    }
}

/// Whether the `k`-th of `steps` is in order: its node is a node of the
/// graph that gives an output, and each of its inputs comes from an
/// earlier step, of the kind that the input takes.
pub open spec fn step_fits(nodes: Seq<GraphNode>, steps: Seq<Step>, k: int) -> bool {
    let step = steps[k];
    &&& step.node < nodes.len()
    &&& output_kind(nodes[step.node as int].node) is Some
    &&& input_fits(nodes, steps, k, step.first, first_input(nodes[step.node as int].node))
    &&& input_fits(nodes, steps, k, step.second, second_input(nodes[step.node as int].node))
}

/// Whether `steps` is a plan over `nodes`: every step is in order, and no
/// node has two steps.
pub open spec fn plan_fits(nodes: Seq<GraphNode>, steps: Seq<Step>) -> bool {
    &&& forall|k: int| 0 <= k < steps.len() ==> #[trigger] step_fits(nodes, steps, k)
    &&& forall|i: int, j: int|
        0 <= i < j < steps.len() ==> (#[trigger] steps[i]).node != (#[trigger] steps[j]).node
}

/// A step that is in order stays so when steps are added behind it.
pub proof fn lemma_step_fits_extends(
    nodes: Seq<GraphNode>,
    before: Seq<Step>,
    after: Seq<Step>,
    k: int,
)
    requires
        0 <= k < before.len() <= after.len(),
        before == after.subrange(0, before.len() as int),
        step_fits(nodes, before, k),
    ensures
        step_fits(nodes, after, k),
{
    assert(before[k] == after[k]);
    let step = before[k];
    if step.first is Some {
        assert(step.first->0 < k ==> before[step.first->0 as int] == after[step.first->0 as int]);
    }
    if step.second is Some {
        assert(step.second->0 < k ==> before[step.second->0 as int] == after[step.second->0 as int]);
    }
}

fn find_step(steps: &Vec<Step>, node: usize) -> (found: Option<usize>)
    ensures
        found == step_of(steps@, node),
{
    let mut i: usize = steps.len();
    assert(steps@.subrange(0, i as int) =~= steps@);
    while i > 0
        invariant
            i <= steps.len(),
            step_of(steps@, node) == step_of(steps@.subrange(0, i as int), node),
        decreases i,
    {
        i -= 1;
        assert(steps@.subrange(0, i + 1).drop_last() =~= steps@.subrange(0, i as int));
        if steps[i].node == node {
            return Some(i);
        }
    }
    assert(steps@.subrange(0, 0) =~= Seq::<Step>::empty());
    None
}

/// Walks to the node `node` and adds the steps of the walk to `steps`.
fn plan_node(graph: &Graph, node: usize, steps: &mut Vec<Step>, depth: usize) -> (found:
    Result<usize, GraphError>)
    requires
        node < graph.nodes@.len(),
        plan_fits(graph.nodes@, old(steps)@),
    ensures
        final(steps)@ == walk_node(*graph, node, old(steps)@, depth as nat).steps,
        match found {
            Ok(k) => walk_node(*graph, node, old(steps)@, depth as nat).found == Ok::<
                usize,
                GraphErrorView,
            >(k) && k < final(steps)@.len() && final(steps)@[k as int].node == node,
            Err(e) => walk_node(*graph, node, old(steps)@, depth as nat).found == Err::<
                usize,
                GraphErrorView,
            >(e@),
        },
        plan_fits(graph.nodes@, final(steps)@),
        old(steps)@.len() <= final(steps)@.len(),
        old(steps)@ == final(steps)@.subrange(0, old(steps)@.len() as int),
    decreases depth, 0nat,
{
    if depth == 0 {
        return Err(GraphError::Cycle);
    }
    proof {
        assert(steps@.len() == steps.len());
        lemma_step_of(steps@, node);
    }
    match find_step(steps, node) {
        Some(k) => {
            assert(steps@ =~= steps@.subrange(0, steps@.len() as int));
            return Ok(k);
        },
        None => {},
    }
    let kind = &graph.nodes[node].node;
    match kind {
        GraphNodeInternal::MapNode(_) => {
            assert(steps@ =~= steps@.subrange(0, steps@.len() as int));
            return Err(GraphError::NoOutput { node_id: graph.nodes[node].id.clone() });
        },
        _ => {},
    }
    let (first, second) = inputs_of(kind);
    let ghost start = steps@;
    let a = match plan_input(graph, node, first, steps, depth - 1) {
        Ok(a) => a,
        Err(e) => {
            return Err(e);
        },
    };
    let ghost middle = steps@;
    let b = match plan_input(graph, node, second, steps, depth - 1) {
        Ok(b) => b,
        Err(e) => {
            assert(start =~= steps@.subrange(0, start.len() as int));
            return Err(e);
        },
    };
    assert(start =~= steps@.subrange(0, start.len() as int));
    match kind {
        GraphNodeInternal::InViewOf(n) => {
            return Err(n.process(graph.nodes[node].id.as_str()));
        },
        _ => {},
    }
    proof {
        assert(steps@.len() == steps.len());
        lemma_step_of(steps@, node);
    }
    if find_step(steps, node).is_some() {
        return Err(GraphError::Cycle);
    }
    let ghost before = steps@;
    let k = steps.len();
    steps.push(Step { node, first: a, second: b });
    proof {
        assert(before =~= steps@.subrange(0, before.len() as int));
        assert(start =~= steps@.subrange(0, start.len() as int));
        assert forall|j: int| 0 <= j < steps@.len() implies #[trigger] step_fits(
            graph.nodes@,
            steps@,
            j,
        ) by {
            if j < before.len() {
                lemma_step_fits_extends(graph.nodes@, before, steps@, j);
            } else {
                if a is Some {
                    assert(a->0 < middle.len());
                    assert(steps@[a->0 as int] == middle[a->0 as int]);
                }
            }
        }
    }
    Ok(k)
}

/// Walks to the input `input` of the node `node` and adds the steps of the
/// walk to `steps`.
fn plan_input(
    graph: &Graph,
    node: usize,
    input: Option<Input>,
    steps: &mut Vec<Step>,
    depth: usize,
) -> (found: Result<Option<usize>, GraphError>)
    requires
        node < graph.nodes@.len(),
        plan_fits(graph.nodes@, old(steps)@),
    ensures
        final(steps)@ == walk_input(
            *graph,
            node,
            input_view(input),
            old(steps)@,
            depth as nat,
        ).steps,
        match found {
            Ok(k) => walk_input(*graph, node, input_view(input), old(steps)@, depth as nat).found
                == Ok::<Option<usize>, GraphErrorView>(k) && input_fits(
                graph.nodes@,
                final(steps)@,
                final(steps)@.len() as int,
                k,
                input_view(input),
            ),
            Err(e) => walk_input(*graph, node, input_view(input), old(steps)@, depth as nat).found
                == Err::<Option<usize>, GraphErrorView>(e@),
        },
        plan_fits(graph.nodes@, final(steps)@),
        old(steps)@.len() <= final(steps)@.len(),
        old(steps)@ == final(steps)@.subrange(0, old(steps)@.len() as int),
    decreases depth, 1nat,
{
    let input = match input {
        Some(i) => i,
        None => {
            assert(steps@ =~= steps@.subrange(0, steps@.len() as int));
            return Ok(None);
        },
    };
    assert(steps@ =~= steps@.subrange(0, steps@.len() as int));
    let c = match graph.find_connection(graph.nodes[node].id.as_str(), input.name) {
        Some(c) => c,
        None => {
            return Err(GraphError::InputMissing { node_id: graph.nodes[node].id.clone() });
        },
    };
    let source = match graph.find_node(graph.connections[c].source.as_str()) {
        Some(s) => s,
        None => {
            return Err(GraphError::ConnectionNodeMissing);
        },
    };
    let k = match plan_node(graph, source, steps, depth) {
        Ok(k) => k,
        Err(e) => {
            return Err(e);
        },
    };
    match kind_of_output(&graph.nodes[source].node) {
        Some(got) => {
            if got == input.kind {
                Ok(Some(k))
            } else {
                Err(got.refused_as(input.kind))
            }
        },
        None => Err(GraphError::NoOutput { node_id: graph.nodes[source].id.clone() }),
    }
}

/// How a plan ends.
#[derive(Debug, PartialEq)]
pub enum Ending {
    /// With the output of a step, or with nothing where no node is wired to
    /// the sink.
    Done(Option<usize>),
    /// With an error, once the steps are done.
    Failed(GraphError),
}

pub enum EndingView {
    Done(Option<usize>),
    Failed(GraphErrorView),
}

impl View for Ending {
    type V = EndingView;

    open spec fn view(&self) -> EndingView {
        match self {
            Ending::Done(k) => EndingView::Done(*k),
            Ending::Failed(e) => EndingView::Failed(e@),
        }
    }
}

/// A plan: the steps in the order in which they are taken, and the end.
pub struct Plan {
    pub steps: Seq<Step>,
    pub ending: EndingView,
}

/// The plan for a graph. A graph that is not valid has no steps and fails
/// with the fault that validation found. Otherwise the walk starts at the
/// node that is wired to the input `in` of the sink; without such a node
/// there is nothing to do. What reaches the sink must be features, so the
/// node must have an output, and one of that kind.
pub open spec fn planned(graph: Graph) -> Plan {
    match validation(graph) {
        Err(e) => Plan { steps: Seq::empty(), ending: EndingView::Failed(e) },
        Ok(sink) => match input_at(graph.connections@, sink, "in"@) {
            None => Plan { steps: Seq::empty(), ending: EndingView::Done(None) },
            Some(c) => match node_at(graph.nodes@, graph.connections@[c].source@) {
                None => Plan {
                    steps: Seq::empty(),
                    ending: EndingView::Failed(GraphErrorView::ConnectionNodeMissing),
                },
                Some(source) => {
                    let walk = walk_node(
                        graph,
                        source as usize,
                        Seq::empty(),
                        graph.nodes@.len(),
                    );
                    match walk.found {
                        Err(e) => Plan { steps: walk.steps, ending: EndingView::Failed(e) },
                        Ok(k) => match output_kind(graph.nodes@[source].node) {
                            Some(OutputKind::Features) => Plan {
                                steps: walk.steps,
                                ending: EndingView::Done(Some(k)),
                            },
                            Some(got) => Plan {
                                steps: walk.steps,
                                ending: EndingView::Failed(wrong_input(got, OutputKind::Features)),
                            },
                            None => Plan {
                                steps: walk.steps,
                                ending: EndingView::Failed(
                                    GraphErrorView::NoOutput { node_id: graph.nodes@[source].id@ },
                                ),
                            },
                        },
                    }
                },
            },
        },
    }
}

/// Whether a plan's end is in order: where it ends with the output of a
/// step, the step is there and gives features.
pub open spec fn ending_fits(nodes: Seq<GraphNode>, steps: Seq<Step>, ending: EndingView) -> bool {
    ending matches EndingView::Done(Some(k)) ==> k < steps.len() && output_kind(
        nodes[steps[k as int].node as int].node,
    ) == Some(OutputKind::Features)
}

/// Whether a node asks for work from outside the library.
pub open spec fn is_outside(node: GraphNodeInternal) -> bool {
    node is Overpass || node is RoadAngleFilter || node is RoadLengthFilter
        || node is ElevationFilter
}

/// The query of an output.
pub open spec fn query_of(out: NodeOutputView) -> Seq<char> {
    match out {
        NodeOutputView::Query(text) => text,
        NodeOutputView::Features(_) => Seq::empty(),
    }
}

/// The features of an output.
pub open spec fn features_of(out: NodeOutputView) -> Seq<FeatureView> {
    match out {
        NodeOutputView::Features(features) => features,
        NodeOutputView::Query(_) => Seq::empty(),
    }
}

/// The output `outputs[k]` where `k` is there.
pub open spec fn input_of(outputs: Seq<NodeOutputView>, k: Option<usize>) -> NodeOutputView {
    match k {
        Some(k) => outputs[k as int],
        None => NodeOutputView::Query(Seq::empty()),
    }
}

/// What the node of the step `step` computes from the outputs `outputs` of
/// the steps before it, for a node that computes within the library.
pub open spec fn computed(nodes: Seq<GraphNode>, step: Step, outputs: Seq<NodeOutputView>) -> NodeOutputView {
    let a = input_of(outputs, step.first);
    let b = input_of(outputs, step.second);
    match nodes[step.node as int].node {
        GraphNodeInternal::Oql(n) => NodeOutputView::Query(n.query.value@),
        GraphNodeInternal::OqlStatement(n) => NodeOutputView::Query(
            statement_text(n.nodes.value, n.ways.value, n.relations.value, n.key.value@, n.value.value@),
        ),
        GraphNodeInternal::OqlUnion(_) => NodeOutputView::Query(
            union_text(query_of(a), query_of(b)),
        ),
        GraphNodeInternal::OqlDifference(_) => NodeOutputView::Query(
            difference_text(query_of(a), query_of(b)),
        ),
        GraphNodeInternal::Union(_) => NodeOutputView::Features(features_of(a) + features_of(b)),
        _ => NodeOutputView::Features(Seq::empty()),
    }
}

/// The outputs once every step has computed that can compute within the
/// library: `outputs`, then the output of each following step, up to the
/// first step that asks for work from outside or to the end of the plan.
pub open spec fn settled(
    nodes: Seq<GraphNode>,
    steps: Seq<Step>,
    outputs: Seq<NodeOutputView>,
) -> Seq<NodeOutputView>
    decreases steps.len() - outputs.len(),
{
    if outputs.len() >= steps.len() || is_outside(
        nodes[steps[outputs.len() as int].node as int].node,
    ) {
        outputs
    } else {
        settled(nodes, steps, outputs.push(computed(nodes, steps[outputs.len() as int], outputs)))
    }
}

/// The text of a query that was sent for a node.
#[derive(Clone, Debug, PartialEq, Eq)]
pub struct ProcessedQuery {
    pub node_id: String,
    pub query: String,
}

pub struct ProcessedQueryView {
    pub node_id: Seq<char>,
    pub query: Seq<char>,
}

impl View for ProcessedQuery {
    type V = ProcessedQueryView;

    open spec fn view(&self) -> ProcessedQueryView {
        ProcessedQueryView { node_id: self.node_id@, query: self.query@ }
    }
}

/// The queries `s`, each by its view.
pub open spec fn queries_view(s: Seq<ProcessedQuery>) -> Seq<ProcessedQueryView> {
    s.map_values(|q: ProcessedQuery| q@)
}

/// The outputs `s`, each by its view.
pub open spec fn outputs_view(s: Seq<NodeOutput>) -> Seq<NodeOutputView> {
    s.map_values(|o: NodeOutput| o@)
}

/// The result of a graph: the features that reach the sink, the areas that
/// place descriptions were resolved to, and the queries that were sent,
/// both in the order in which the nodes computed.
#[derive(Debug, PartialEq)]
pub struct ProcessResult {
    pub collection: FeatureCollection,
    pub geocode_areas: Vec<GeocodeaArea>,
    pub processed_queries: Vec<ProcessedQuery>,
}

pub struct ProcessResultView {
    pub collection: Seq<FeatureView>,
    pub geocode_areas: Seq<GeocodeaAreaView>,
    pub processed_queries: Seq<ProcessedQueryView>,
}

impl View for ProcessResult {
    type V = ProcessResultView;

    open spec fn view(&self) -> ProcessResultView {
        ProcessResultView {
            collection: self.collection@,
            geocode_areas: areas_view(self.geocode_areas@),
            processed_queries: queries_view(self.processed_queries@),
        }
    }
}

impl Default for ProcessResult {
    /// The result of a graph in which nothing reaches the sink.
    fn default() -> (result: ProcessResult)
        ensures
            result@ == (ProcessResultView {
                collection: Seq::empty(),
                geocode_areas: Seq::empty(),
                processed_queries: Seq::empty(),
            }),
    {
        let result = ProcessResult {
            collection: FeatureCollection::empty(),
            geocode_areas: Vec::new(),
            processed_queries: Vec::new(),
        };
        assert(areas_view(result.geocode_areas@) =~= Seq::<GeocodeaAreaView>::empty());
        assert(queries_view(result.processed_queries@) =~= Seq::<ProcessedQueryView>::empty());
        result
    }
}

/// What the evaluation asks of its caller.
#[derive(Debug, PartialEq)]
pub enum Action {
    /// Send `query`, preprocessed with `timeout`, to the query service.
    Overpass { node_id: String, query: String, timeout: u32 },
    /// Filter `collection` by the bearing of its segments. The bounds are
    /// bit patterns of binary64 numbers.
    RoadAngleFilter { node_id: String, min: u64, max: u64, collection: FeatureCollection },
    /// Filter `collection` by the length of its runs. The bounds and the
    /// tolerance are bit patterns of binary64 numbers.
    RoadLengthFilter {
        node_id: String,
        min: u64,
        max: u64,
        tolerance: u64,
        collection: FeatureCollection,
    },
    /// Filter `collection` by elevation.
    ElevationFilter { node_id: String, min: i32, max: i32, collection: FeatureCollection },
    /// Nothing: the evaluation is over, with this result.
    Finished(Result<ProcessResult, GraphError>),
}

pub enum ActionView {
    Overpass { node_id: Seq<char>, query: Seq<char>, timeout: u32 },
    RoadAngleFilter { node_id: Seq<char>, min: u64, max: u64, collection: Seq<FeatureView> },
    RoadLengthFilter {
        node_id: Seq<char>,
        min: u64,
        max: u64,
        tolerance: u64,
        collection: Seq<FeatureView>,
    },
    ElevationFilter { node_id: Seq<char>, min: i32, max: i32, collection: Seq<FeatureView> },
    Finished(Result<ProcessResultView, GraphErrorView>),
}

impl View for Action {
    type V = ActionView;

    open spec fn view(&self) -> ActionView {
        match self {
            Action::Overpass { node_id, query, timeout } => ActionView::Overpass {
                node_id: node_id@,
                query: query@,
                timeout: *timeout,
            },
            Action::RoadAngleFilter { node_id, min, max, collection } => ActionView::RoadAngleFilter {
                node_id: node_id@,
                min: *min,
                max: *max,
                collection: collection@,
            },
            Action::RoadLengthFilter {
                node_id,
                min,
                max,
                tolerance,
                collection,
            } => ActionView::RoadLengthFilter {
                node_id: node_id@,
                min: *min,
                max: *max,
                tolerance: *tolerance,
                collection: collection@,
            },
            Action::ElevationFilter { node_id, min, max, collection } => ActionView::ElevationFilter {
                node_id: node_id@,
                min: *min,
                max: *max,
                collection: collection@,
            },
            Action::Finished(Ok(result)) => ActionView::Finished(Ok(result@)),
            Action::Finished(Err(e)) => ActionView::Finished(Err(e@)),
        }
    }
}

/// What the caller is asked for when the outputs `outputs` are there and
/// the next step, if there is one, asks for work from outside: that work,
/// with the node's settings and the output at its input; or, at the end of
/// the plan, nothing but to take the result.
pub open spec fn next_action(
    nodes: Seq<GraphNode>,
    steps: Seq<Step>,
    ending: EndingView,
    outputs: Seq<NodeOutputView>,
    areas: Seq<GeocodeaAreaView>,
    queries: Seq<ProcessedQueryView>,
) -> ActionView {
    if outputs.len() >= steps.len() {
        ActionView::Finished(
            match ending {
                EndingView::Failed(e) => Err(e),
                EndingView::Done(None) => Ok(
                    ProcessResultView {
                        collection: Seq::empty(),
                        geocode_areas: Seq::empty(),
                        processed_queries: Seq::empty(),
                    },
                ),
                EndingView::Done(Some(k)) => Ok(
                    ProcessResultView {
                        collection: features_of(outputs[k as int]),
                        geocode_areas: areas,
                        processed_queries: queries,
                    },
                ),
            },
        )
    } else {
        let step = steps[outputs.len() as int];
        let node_id = nodes[step.node as int].id@;
        let input = input_of(outputs, step.first);
        match nodes[step.node as int].node {
            GraphNodeInternal::Overpass(n) => ActionView::Overpass {
                node_id,
                query: query_of(input),
                timeout: n.timeout.value,
            },
            GraphNodeInternal::RoadAngleFilter(n) => ActionView::RoadAngleFilter {
                node_id,
                min: n.min.value,
                max: n.max.value,
                collection: features_of(input),
            },
            GraphNodeInternal::RoadLengthFilter(n) => ActionView::RoadLengthFilter {
                node_id,
                min: n.min.value,
                max: n.max.value,
                tolerance: n.tolerance.value,
                collection: features_of(input),
            },
            GraphNodeInternal::ElevationFilter(n) => ActionView::ElevationFilter {
                node_id,
                min: n.min.value,
                max: n.max.value,
                collection: features_of(input),
            },
            _ => ActionView::Finished(Err(GraphErrorView::NoOutput { node_id })),
        }
    }
}

/// What the caller hands back for the work that it was asked for.
#[derive(Debug, PartialEq)]
pub enum Reply {
    /// The answer of the query service: the features, the areas that the
    /// query named, and the query as it was sent.
    Overpass { collection: FeatureCollection, geocode_areas: Vec<GeocodeaArea>, query: String },
    /// The features that a filter kept.
    Filtered(FeatureCollection),
}

/// Whether `reply` answers the work that `node` asks for.
pub open spec fn answers(node: GraphNodeInternal, reply: Reply) -> bool {
    match reply {
        Reply::Overpass { .. } => node is Overpass,
        Reply::Filtered(_) => node is RoadAngleFilter || node is RoadLengthFilter
            || node is ElevationFilter,
    }
}

/// The features of a reply.
pub open spec fn reply_features(reply: Reply) -> Seq<FeatureView> {
    match reply {
        Reply::Overpass { collection, .. } => collection@,
        Reply::Filtered(collection) => collection@,
    }
}

/// The areas that a reply adds to those named so far.
pub open spec fn reply_areas(reply: Reply) -> Seq<GeocodeaAreaView> {
    match reply {
        Reply::Overpass { geocode_areas, .. } => areas_view(geocode_areas@),
        Reply::Filtered(_) => Seq::empty(),
    }
}

/// The queries that a reply for the node `node_id` adds to those sent so
/// far.
pub open spec fn reply_queries(node_id: Seq<char>, reply: Reply) -> Seq<ProcessedQueryView> {
    match reply {
        Reply::Overpass { query, .. } => seq![ProcessedQueryView { node_id, query: query@ }],
        Reply::Filtered(_) => Seq::empty(),
    }
}

/// What an evaluation comes to when the caller hands in `replies`, one
/// after the other. Each reply is for the work that the evaluation asks for
/// then; one that does not answer that work is passed over. The evaluation
/// ends with its result, or, where the replies run out, with the work that
/// it asks for next.
///
/// The outcome depends on the plan and on the replies alone. The areas and
/// the queries of the result stand in the order of the replies that
/// brought them, which is the order of the steps.
pub open spec fn outcome(
    nodes: Seq<GraphNode>,
    steps: Seq<Step>,
    ending: EndingView,
    outputs: Seq<NodeOutputView>,
    areas: Seq<GeocodeaAreaView>,
    queries: Seq<ProcessedQueryView>,
    replies: Seq<Reply>,
) -> ActionView
    decreases replies.len(),
{
    let ready = settled(nodes, steps, outputs);
    if replies.len() == 0 || ready.len() >= steps.len() {
        next_action(nodes, steps, ending, ready, areas, queries)
    } else {
        let node = nodes[steps[ready.len() as int].node as int];
        let reply = replies[0];
        if answers(node.node, reply) {
            outcome(
                nodes,
                steps,
                ending,
                ready.push(NodeOutputView::Features(reply_features(reply))),
                areas + reply_areas(reply),
                queries + reply_queries(node.id@, reply),
                replies.skip(1),
            )
        } else {
            outcome(nodes, steps, ending, ready, areas, queries, replies.skip(1))
        }
    }
}

/// Once every step has computed that can, the next step asks for work from
/// outside, if there is a next step; and nothing is left to compute.
pub proof fn lemma_settled(nodes: Seq<GraphNode>, steps: Seq<Step>, outputs: Seq<NodeOutputView>)
    ensures
        outputs.len() <= settled(nodes, steps, outputs).len(),
        settled(nodes, steps, outputs).len() < steps.len() ==> is_outside(
            nodes[steps[settled(nodes, steps, outputs).len() as int].node as int].node,
        ),
        settled(nodes, steps, settled(nodes, steps, outputs)) == settled(nodes, steps, outputs),
    decreases steps.len() - outputs.len(),
{
    if !(outputs.len() >= steps.len() || is_outside(
        nodes[steps[outputs.len() as int].node as int].node,
    )) {
        lemma_settled(
            nodes,
            steps,
            outputs.push(computed(nodes, steps[outputs.len() as int], outputs)),
        );
    }
}

/// The state of an evaluation: the plan, and what has been computed so
/// far.
pub struct NodeProcessor {
    nodes: Vec<GraphNode>,
    steps: Vec<Step>,
    ending: Ending,
    outputs: Vec<NodeOutput>,
    geocode_areas: Vec<GeocodeaArea>,
    processed_queries: Vec<ProcessedQuery>,
}

fn query_at(outputs: &Vec<NodeOutput>, k: usize) -> (text: &String)
    requires
        k < outputs@.len(),
        outputs@[k as int] is Query,
    ensures
        outputs@[k as int]@ == NodeOutputView::Query(text@),
{
    match &outputs[k] {
        NodeOutput::Query(text) => text,
        NodeOutput::Features(_) => vstd::pervasive::unreached(),
    }
}

fn features_at(outputs: &Vec<NodeOutput>, k: usize) -> (collection: &FeatureCollection)
    requires
        k < outputs@.len(),
        outputs@[k as int] is Features,
    ensures
        outputs@[k as int]@ == NodeOutputView::Features(collection@),
{
    match &outputs[k] {
        NodeOutput::Features(collection) => collection,
        NodeOutput::Query(_) => vstd::pervasive::unreached(),
    }
}

/// A copy of the queries `from`.
fn copy_queries(from: &Vec<ProcessedQuery>) -> (copy: Vec<ProcessedQuery>)
    ensures
        queries_view(copy@) == queries_view(from@),
{
    let mut copy: Vec<ProcessedQuery> = Vec::new();
    let mut i: usize = 0;
    while i < from.len()
        invariant
            i <= from.len(),
            copy.len() == i,
            forall|j: int| 0 <= j < i ==> copy@[j]@ == from@[j]@,
        decreases from.len() - i,
    {
        copy.push(ProcessedQuery { node_id: from[i].node_id.clone(), query: from[i].query.clone() });
        i += 1;
    }
    assert(queries_view(copy@) =~= queries_view(from@));
    copy
}

impl NodeProcessor {
    #[verifier::type_invariant]
    spec fn well_formed(self) -> bool {
        &&& self.outputs@.len() <= self.steps@.len()
        &&& plan_fits(self.nodes@, self.steps@)
        &&& ending_fits(self.nodes@, self.steps@, self.ending@)
        &&& forall|k: int|
            0 <= k < self.outputs@.len() ==> Some((#[trigger] self.outputs@[k]).spec_kind())
                == output_kind(self.nodes@[self.steps@[k].node as int].node)
    }

    /// The nodes of the graph.
    pub closed spec fn nodes(&self) -> Seq<GraphNode> {
        self.nodes@
    }

    /// The steps of the plan.
    pub closed spec fn steps(&self) -> Seq<Step> {
        self.steps@
    }

    /// The end of the plan.
    pub closed spec fn ending(&self) -> EndingView {
        self.ending@
    }

    /// The outputs of the steps that are done, in the order of the steps.
    pub closed spec fn outputs(&self) -> Seq<NodeOutputView> {
        outputs_view(self.outputs@)
    }

    /// The areas that the queries sent so far have named.
    pub closed spec fn areas(&self) -> Seq<GeocodeaAreaView> {
        areas_view(self.geocode_areas@)
    }

    /// The queries sent so far.
    pub closed spec fn queries(&self) -> Seq<ProcessedQueryView> {
        queries_view(self.processed_queries@)
    }

    /// Computes as far as the library can: every step up to the first that
    /// asks for work from outside, or to the end of the plan. Hands back
    /// the state then, and what the caller is asked for.
    pub fn advance(self) -> (next: (NodeProcessor, Action))
        ensures
            next.0.nodes() == self.nodes(),
            next.0.steps() == self.steps(),
            next.0.ending() == self.ending(),
            next.0.areas() == self.areas(),
            next.0.queries() == self.queries(),
            next.0.outputs() == settled(self.nodes(), self.steps(), self.outputs()),
            next.1@ == next_action(
                self.nodes(),
                self.steps(),
                self.ending(),
                next.0.outputs(),
                self.areas(),
                self.queries(),
            ),
    {
        proof {
            use_type_invariant(&self);
        }
        let ghost start = self;
        let NodeProcessor { nodes, steps, ending, mut outputs, geocode_areas, processed_queries } =
            self;
        let mut waiting: Option<Action> = None;
        while outputs.len() < steps.len() && waiting.is_none()
            invariant
                outputs@.len() <= steps@.len(),
                plan_fits(nodes@, steps@),
                forall|k: int|
                    0 <= k < outputs@.len() ==> Some((#[trigger] outputs@[k]).spec_kind())
                        == output_kind(nodes@[steps@[k].node as int].node),
                settled(nodes@, steps@, outputs_view(outputs@)) == settled(
                    nodes@,
                    steps@,
                    outputs_view(start.outputs@),
                ),
                waiting matches Some(action) ==> outputs@.len() < steps@.len() && is_outside(
                    nodes@[steps@[outputs@.len() as int].node as int].node,
                ) && action@ == next_action(
                    nodes@,
                    steps@,
                    ending@,
                    outputs_view(outputs@),
                    areas_view(geocode_areas@),
                    queries_view(processed_queries@),
                ),
            decreases steps@.len() - outputs@.len() + if waiting is None { 1nat } else { 0nat },
        {
            let at = outputs.len();
            let step = steps[at];
            let ghost done = outputs_view(outputs@);
            proof {
                assert(step_fits(nodes@, steps@, at as int));
                if step.first is Some {
                    assert(done[step.first->0 as int] == outputs@[step.first->0 as int]@);
                }
                if step.second is Some {
                    assert(done[step.second->0 as int] == outputs@[step.second->0 as int]@);
                }
            }
            let node = &nodes[step.node];
            let output = match &node.node {
                GraphNodeInternal::Oql(n) => Some(n.process()),
                GraphNodeInternal::OqlStatement(n) => Some(n.process()),
                GraphNodeInternal::OqlUnion(n) => match (step.first, step.second) {
                    (Some(a), Some(b)) => Some(
                        n.process(
                            query_at(&outputs, a).as_str(),
                            query_at(&outputs, b).as_str(),
                        ),
                    ),
                    _ => vstd::pervasive::unreached(),
                },
                GraphNodeInternal::OqlDifference(n) => match (step.first, step.second) {
                    (Some(a), Some(b)) => Some(
                        n.process(
                            query_at(&outputs, a).as_str(),
                            query_at(&outputs, b).as_str(),
                        ),
                    ),
                    _ => vstd::pervasive::unreached(),
                },
                GraphNodeInternal::Union(n) => match (step.first, step.second) {
                    (Some(a), Some(b)) => Some(
                        n.process(features_at(&outputs, a), features_at(&outputs, b)),
                    ),
                    _ => vstd::pervasive::unreached(),
                },
                GraphNodeInternal::Overpass(n) => {
                    let a = match step.first {
                        Some(a) => a,
                        None => vstd::pervasive::unreached(),
                    };
                    waiting = Some(
                        Action::Overpass {
                            node_id: node.id.clone(),
                            query: query_at(&outputs, a).clone(),
                            timeout: n.timeout.value,
                        },
                    );
                    None
                },
                GraphNodeInternal::RoadAngleFilter(n) => {
                    let a = match step.first {
                        Some(a) => a,
                        None => vstd::pervasive::unreached(),
                    };
                    waiting = Some(
                        Action::RoadAngleFilter {
                            node_id: node.id.clone(),
                            min: n.min.value,
                            max: n.max.value,
                            collection: features_at(&outputs, a).duplicate(),
                        },
                    );
                    None
                },
                GraphNodeInternal::RoadLengthFilter(n) => {
                    let a = match step.first {
                        Some(a) => a,
                        None => vstd::pervasive::unreached(),
                    };
                    waiting = Some(
                        Action::RoadLengthFilter {
                            node_id: node.id.clone(),
                            min: n.min.value,
                            max: n.max.value,
                            tolerance: n.tolerance.value,
                            collection: features_at(&outputs, a).duplicate(),
                        },
                    );
                    None
                },
                GraphNodeInternal::ElevationFilter(n) => {
                    let a = match step.first {
                        Some(a) => a,
                        None => vstd::pervasive::unreached(),
                    };
                    waiting = Some(
                        Action::ElevationFilter {
                            node_id: node.id.clone(),
                            min: n.min.value,
                            max: n.max.value,
                            collection: features_at(&outputs, a).duplicate(),
                        },
                    );
                    None
                },
                GraphNodeInternal::MapNode(_) => vstd::pervasive::unreached(),
                GraphNodeInternal::InViewOf(_) => vstd::pervasive::unreached(),
            };
            match output {
                Some(output) => {
                    assert(output@ == computed(nodes@, step, done));
                    proof {
                        assert(outputs_view(outputs@.push(output)) =~= done.push(output@));
                    }
                    outputs.push(output);
                },
                None => {},
            }
        }
        let action = match waiting {
            Some(action) => action,
            None => {
                let result = match &ending {
                    Ending::Failed(e) => Err(e.duplicate()),
                    Ending::Done(None) => Ok(ProcessResult::default()),
                    Ending::Done(Some(k)) => {
                        let mut areas: Vec<GeocodeaArea> = Vec::new();
                        append_areas(&mut areas, &geocode_areas);
                        assert(areas_view(areas@) =~= areas_view(geocode_areas@)) by {
                            assert(areas_view(Seq::<GeocodeaArea>::empty()) =~= Seq::<
                                GeocodeaAreaView,
                            >::empty());
                        }
                        assert(outputs_view(outputs@)[*k as int] == outputs@[*k as int]@);
                        Ok(
                            ProcessResult {
                                collection: features_at(&outputs, *k).duplicate(),
                                geocode_areas: areas,
                                processed_queries: copy_queries(&processed_queries),
                            },
                        )
                    },
                };
                Action::Finished(result)
            },
        };
        (NodeProcessor { nodes, steps, ending, outputs, geocode_areas, processed_queries }, action)
    }

    /// Takes the caller's reply to the work that `advance` asked for. The
    /// reply is taken where the next step asks for work from outside and
    /// the reply answers that work: its features are the output of the
    /// step, and what a query service answered is noted. A reply that is
    /// not taken changes nothing.
    pub fn supply(self, reply: Reply) -> (next: (NodeProcessor, bool))
        ensures
            next.0.nodes() == self.nodes(),
            next.0.steps() == self.steps(),
            next.0.ending() == self.ending(),
            next.1 == (self.outputs().len() < self.steps().len() && answers(
                self.nodes()[self.steps()[self.outputs().len() as int].node as int].node,
                reply,
            )),
            next.1 ==> next.0.outputs() == self.outputs().push(
                NodeOutputView::Features(reply_features(reply)),
            ),
            !next.1 ==> next.0.outputs() == self.outputs() && next.0.areas() == self.areas()
                && next.0.queries() == self.queries(),
            next.1 ==> match reply {
                Reply::Overpass { geocode_areas, query, .. } => next.0.areas() == self.areas()
                    + areas_view(geocode_areas@) && next.0.queries() == self.queries().push(
                    ProcessedQueryView {
                        node_id: self.nodes()[self.steps()[self.outputs().len() as int].node as int].id@,
                        query: query@,
                    },
                ),
                Reply::Filtered(_) => next.0.areas() == self.areas() && next.0.queries()
                    == self.queries(),
            },
    {
        proof {
            use_type_invariant(&self);
        }
        let at = self.outputs.len();
        assert(self.outputs().len() == at);
        if at >= self.steps.len() {
            return (self, false);
        }
        let step = self.steps[at];
        assert(step_fits(self.nodes@, self.steps@, at as int));
        let ghost done = outputs_view(self.outputs@);
        match reply {
            Reply::Overpass { collection, geocode_areas: found, query } => {
                match &self.nodes[step.node].node {
                    GraphNodeInternal::Overpass(_) => {},
                    _ => {
                        return (self, false);
                    },
                }
                let NodeProcessor {
                    nodes,
                    steps,
                    ending,
                    mut outputs,
                    mut geocode_areas,
                    mut processed_queries,
                } = self;
                let output = NodeOutput::Features(collection);
                proof {
                    assert(outputs_view(outputs@.push(output)) =~= done.push(output@));
                }
                let noted = ProcessedQuery { node_id: nodes[step.node].id.clone(), query };
                proof {
                    assert(queries_view(processed_queries@.push(noted)) =~= queries_view(
                        processed_queries@,
                    ).push(noted@));
                }
                outputs.push(output);
                append_areas(&mut geocode_areas, &found);
                processed_queries.push(noted);
                (
                    NodeProcessor {
                        nodes,
                        steps,
                        ending,
                        outputs,
                        geocode_areas,
                        processed_queries,
                    },
                    true,
                )
            },
            Reply::Filtered(collection) => {
                match &self.nodes[step.node].node {
                    GraphNodeInternal::RoadAngleFilter(_) => {},
                    GraphNodeInternal::RoadLengthFilter(_) => {},
                    GraphNodeInternal::ElevationFilter(_) => {},
                    _ => {
                        return (self, false);
                    },
                }
                let NodeProcessor {
                    nodes,
                    steps,
                    ending,
                    mut outputs,
                    geocode_areas,
                    processed_queries,
                } = self;
                let output = NodeOutput::Features(collection);
                proof {
                    assert(outputs_view(outputs@.push(output)) =~= done.push(output@));
                }
                outputs.push(output);
                (
                    NodeProcessor {
                        nodes,
                        steps,
                        ending,
                        outputs,
                        geocode_areas,
                        processed_queries,
                    },
                    true,
                )
            },
        }
    }

    /// Carries the evaluation on with the replies `replies`, handed in one
    /// after the other, until it ends or the replies run out. Hands back
    /// the state then, and what the caller is asked for.
    pub fn replay(self, replies: Vec<Reply>) -> (next: (NodeProcessor, Action))
        ensures
            next.0.nodes() == self.nodes(),
            next.0.steps() == self.steps(),
            next.0.ending() == self.ending(),
            next.1@ == outcome(
                self.nodes(),
                self.steps(),
                self.ending(),
                self.outputs(),
                self.areas(),
                self.queries(),
                replies@,
            ),
    {
        let ghost all = replies@;
        let mut rest = replies;
        let (mut processor, mut action) = self.advance();
        proof {
            lemma_settled(self.nodes(), self.steps(), self.outputs());
        }
        while rest.len() > 0
            invariant
                processor.nodes() == self.nodes(),
                processor.steps() == self.steps(),
                processor.ending() == self.ending(),
                settled(processor.nodes(), processor.steps(), processor.outputs())
                    == processor.outputs(),
                action@ == next_action(
                    processor.nodes(),
                    processor.steps(),
                    processor.ending(),
                    processor.outputs(),
                    processor.areas(),
                    processor.queries(),
                ),
                outcome(
                    processor.nodes(),
                    processor.steps(),
                    processor.ending(),
                    processor.outputs(),
                    processor.areas(),
                    processor.queries(),
                    rest@,
                ) == outcome(
                    self.nodes(),
                    self.steps(),
                    self.ending(),
                    self.outputs(),
                    self.areas(),
                    self.queries(),
                    all,
                ),
            decreases rest.len(),
        {
            let ghost before = processor;
            let ghost pending = rest@;
            let reply = rest.remove(0);
            assert(rest@ =~= pending.skip(1));
            assert(reply == pending[0]);
            let (supplied, taken) = processor.supply(reply);
            let ghost given = supplied;
            let (next, asked) = supplied.advance();
            proof {
                let nodes = before.nodes();
                let steps = before.steps();
                let ending = before.ending();
                lemma_settled(nodes, steps, before.outputs());
                lemma_settled(nodes, steps, given.outputs());
                assert(settled(nodes, steps, next.outputs()) == next.outputs());
                if taken {
                    let node = nodes[steps[before.outputs().len() as int].node as int];
                    assert(given.areas() =~= before.areas() + reply_areas(reply));
                    assert(given.queries() =~= before.queries() + reply_queries(node.id@, reply));
                }
                assert(outcome(
                    nodes,
                    steps,
                    ending,
                    before.outputs(),
                    before.areas(),
                    before.queries(),
                    pending,
                ) == outcome(
                    nodes,
                    steps,
                    ending,
                    given.outputs(),
                    given.areas(),
                    given.queries(),
                    rest@,
                ));
                assert(outcome(
                    nodes,
                    steps,
                    ending,
                    given.outputs(),
                    given.areas(),
                    given.queries(),
                    rest@,
                ) == outcome(
                    nodes,
                    steps,
                    ending,
                    next.outputs(),
                    next.areas(),
                    next.queries(),
                    rest@,
                ));
            }
            processor = next;
            action = asked;
        }
        (processor, action)
    }
}

/// Plans the evaluation of a graph. Nothing is computed yet.
///
/// A graph that is not valid is planned to fail at once, with what
/// validation found: a cycle where the connections hold one, else a missing
/// sink where the graph has none, else a connection to or from a node that
/// is not there. The walk of a valid graph fails with none of these.
pub fn process_graph(graph: Graph) -> (processor: NodeProcessor)
    ensures
        processor.nodes() == graph.nodes@,
        processor.steps() == planned(graph).steps,
        processor.ending() == planned(graph).ending,
        processor.outputs() == Seq::<NodeOutputView>::empty(),
        processor.areas() == Seq::<GeocodeaAreaView>::empty(),
        processor.queries() == Seq::<ProcessedQueryView>::empty(),
        plan_fits(graph.nodes@, planned(graph).steps),
        ending_fits(graph.nodes@, planned(graph).steps, planned(graph).ending),
        processor.ending() == EndingView::Failed(GraphErrorView::Cycle) <==> has_cycle(
            graph.connections@,
        ),
        processor.ending() == EndingView::Failed(GraphErrorView::MapMissing) <==> !has_cycle(
            graph.connections@,
        ) && sink_at(graph.nodes@) is None,
        processor.ending() == EndingView::Failed(GraphErrorView::ConnectionNodeMissing)
            <==> !has_cycle(graph.connections@) && sink_at(graph.nodes@) is Some && !ends_exist(
            graph.nodes@,
            graph.connections@,
        ),
        validation(graph) is Err ==> processor.steps().len() == 0,
{
    proof {
        law_validation_decides(graph);
    }
    let mut steps: Vec<Step> = Vec::new();
    let ending = plan_graph(&graph, &mut steps);
    let processor = NodeProcessor {
        nodes: graph.nodes,
        steps,
        ending,
        outputs: Vec::new(),
        geocode_areas: Vec::new(),
        processed_queries: Vec::new(),
    };
    assert(processor.outputs() =~= Seq::<NodeOutputView>::empty());
    assert(processor.areas() =~= Seq::<GeocodeaAreaView>::empty());
    assert(processor.queries() =~= Seq::<ProcessedQueryView>::empty());
    processor
}

/// Plans the evaluation of `graph`: the steps go to `steps`, and the end is
/// handed back.
fn plan_graph(graph: &Graph, steps: &mut Vec<Step>) -> (ending: Ending)
    requires
        old(steps)@.len() == 0,
    ensures
        final(steps)@ == planned(*graph).steps,
        ending@ == planned(*graph).ending,
        plan_fits(graph.nodes@, final(steps)@),
        ending_fits(graph.nodes@, final(steps)@, ending@),
{
    assert(steps@ =~= Seq::<Step>::empty());
    let sink = match graph.validate() {
        Ok(sink) => sink,
        Err(e) => {
            return Ending::Failed(e);
        },
    };
    let c = match graph.find_connection(graph.nodes[sink].id.as_str(), "in") {
        Some(c) => c,
        None => {
            return Ending::Done(None);
        },
    };
    let source = match graph.find_node(graph.connections[c].source.as_str()) {
        Some(s) => s,
        None => {
            return Ending::Failed(GraphError::ConnectionNodeMissing);
        },
    };
    let k = match plan_node(graph, source, steps, graph.nodes.len()) {
        Ok(k) => k,
        Err(e) => {
            return Ending::Failed(e);
        },
    };
    match kind_of_output(&graph.nodes[source].node) {
        Some(OutputKind::Features) => Ending::Done(Some(k)),
        Some(got) => Ending::Failed(got.refused_as(OutputKind::Features)),
        None => Ending::Failed(GraphError::NoOutput { node_id: graph.nodes[source].id.clone() }),
    }
}

/// A graph whose connections hold a directed cycle is not evaluated: its
/// plan has no step, and the first thing that the evaluation hands back is
/// the error `Cycle`.
pub proof fn law_cycle_is_rejected(graph: Graph)
    requires
        has_cycle(graph.connections@),
    ensures
        planned(graph).steps.len() == 0,
        planned(graph).ending == EndingView::Failed(GraphErrorView::Cycle),
        next_action(
            graph.nodes@,
            planned(graph).steps,
            planned(graph).ending,
            settled(graph.nodes@, planned(graph).steps, Seq::empty()),
            Seq::empty(),
            Seq::empty(),
        ) == ActionView::Finished(Err(GraphErrorView::Cycle)),
{
}

/// A valid graph in which nothing is wired to the input `in` of the sink
/// has no step, and the first thing that the evaluation hands back is the
/// empty result.
pub proof fn law_unwired_sink_is_empty(graph: Graph)
    requires
        validation(graph) matches Ok(sink) && input_at(graph.connections@, sink, "in"@) is None,
    ensures
        planned(graph).steps.len() == 0,
        next_action(
            graph.nodes@,
            planned(graph).steps,
            planned(graph).ending,
            settled(graph.nodes@, planned(graph).steps, Seq::empty()),
            Seq::empty(),
            Seq::empty(),
        ) == ActionView::Finished(
            Ok(
                ProcessResultView {
                    collection: Seq::empty(),
                    geocode_areas: Seq::empty(),
                    processed_queries: Seq::empty(),
                },
            ),
        ),
{
}

/// A connection from a node whose output is of another kind than the input
/// takes fails the walk with `WrongInputType`, as soon as the node at its
/// source has been walked.
pub proof fn law_wrong_kind_fails(
    graph: Graph,
    node: usize,
    name: Seq<char>,
    kind: OutputKind,
    steps: Seq<Step>,
    depth: nat,
)
    requires
        input_at(graph.connections@, graph.nodes@[node as int].id@, name) matches Some(c)
            && node_at(graph.nodes@, graph.connections@[c].source@) matches Some(source)
            && output_kind(graph.nodes@[source].node) matches Some(got) && got != kind
            && walk_node(graph, source as usize, steps, depth).found is Ok,
    ensures
        walk_input(graph, node, Some((name, kind)), steps, depth).found matches Err(
            GraphErrorView::WrongInputType { got, expected },
        ) && expected == crate::graph::output::kind_name(kind) && got != expected,
{
    let c = input_at(graph.connections@, graph.nodes@[node as int].id@, name)->0;
    let source = node_at(graph.nodes@, graph.connections@[c].source@)->0;
    let got = output_kind(graph.nodes@[source].node)->0;
    reveal_strlit("geojson");
    reveal_strlit("query");
    assert("geojson"@.len() != "query"@.len());
}

/// A node whose input cannot be had gets no step: the walk to the node
/// fails with the failure of the input, and adds nothing to what the walk
/// to the input had added.
pub proof fn law_failed_input_fails_node(graph: Graph, node: usize, steps: Seq<Step>, depth: nat)
    requires
        depth > 0,
        step_of(steps, node) is None,
        walk_input(
            graph,
            node,
            first_input(graph.nodes@[node as int].node),
            steps,
            (depth - 1) as nat,
        ).found is Err,
    ensures
        walk_node(graph, node, steps, depth).found is Err,
        walk_node(graph, node, steps, depth).found->Err_0 == walk_input(
            graph,
            node,
            first_input(graph.nodes@[node as int].node),
            steps,
            (depth - 1) as nat,
        ).found->Err_0,
        walk_node(graph, node, steps, depth).steps == walk_input(
            graph,
            node,
            first_input(graph.nodes@[node as int].node),
            steps,
            (depth - 1) as nat,
        ).steps,
{
}

} // verus!
