//! The node graph: its nodes and connections, and what can go wrong with
//! them.

use vstd::prelude::*;
use crate::graph::errors::GraphError;
use crate::graph::errors::GraphErrorView;
use crate::graph::nodes::GraphNode;
use crate::graph::nodes::GraphNodeInternal;
use crate::graph::utils::detect_cycles;
use crate::graph::utils::has_cycle;
use crate::text::text_is;

pub mod acyclic;
pub mod errors;
pub mod nodes;
pub mod output;
pub mod process;
pub mod utils;

verus! {

/// A graph of nodes, wired by connections.
#[derive(Debug, PartialEq)]
pub struct Graph {
    pub nodes: Vec<GraphNode>,
    pub connections: Vec<GraphConnection>,
}

/// A setting of a node.
#[derive(Clone, Debug, PartialEq, Eq)]
pub struct Control<T> {
    pub id: String,
    pub value: T,
}

/// A wire from an output of the node `source` to the input `target_input`
/// of the node `target`.
#[derive(Clone, Debug, PartialEq, Eq)]
pub struct GraphConnection {
    pub id: String,
    pub source: String,
    pub source_output: String,
    pub target: String,
    pub target_input: String,
}

/// Where the node with the identifier `id` stands among `nodes`. Where
/// several nodes share the identifier, the last one counts.
pub open spec fn node_at(nodes: Seq<GraphNode>, id: Seq<char>) -> Option<int>
    decreases nodes.len(),
{
    if nodes.len() == 0 {
        None
    } else if nodes.last().id@ == id {
        Some(nodes.len() - 1)
    } else {
        node_at(nodes.drop_last(), id)
    }
}

/// Where the first connection to the input `input` of the node `target`
/// stands among `connections`.
pub open spec fn input_at(
    connections: Seq<GraphConnection>,
    target: Seq<char>,
    input: Seq<char>,
) -> Option<int>
    decreases connections.len(),
{
    if connections.len() == 0 {
        None
    } else {
        match input_at(connections.drop_last(), target, input) {
            Some(i) => Some(i),
            None => if connections.last().target@ == target && connections.last().target_input@
                == input {
                Some(connections.len() - 1)
            } else {
                None
            },
        }
    }
}

/// Where the first sink stands among `nodes`.
pub open spec fn sink_at(nodes: Seq<GraphNode>) -> Option<int>
    decreases nodes.len(),
{
    if nodes.len() == 0 {
        None
    } else {
        match sink_at(nodes.drop_last()) {
            Some(i) => Some(i),
            None => if nodes.last().node is MapNode {
                Some(nodes.len() - 1)
            } else {
                None
            },
        }
    }
}

/// What `node_at` finds is a node with the identifier, and it finds one
/// where there is one.
pub proof fn lemma_node_at(nodes: Seq<GraphNode>, id: Seq<char>)
    ensures
        match node_at(nodes, id) {
            Some(i) => 0 <= i < nodes.len() && nodes[i].id@ == id && forall|j: int|
                i < j < nodes.len() ==> nodes[j].id@ != id,
            None => forall|j: int| 0 <= j < nodes.len() ==> nodes[j].id@ != id,
        },
    decreases nodes.len(),
{
    if nodes.len() > 0 {
        lemma_node_at(nodes.drop_last(), id);
        assert(forall|j: int| 0 <= j < nodes.len() - 1 ==> nodes.drop_last()[j] == nodes[j]);
    }
}

/// What `input_at` finds is the first connection to the input, and it
/// finds one where there is one.
pub proof fn lemma_input_at(connections: Seq<GraphConnection>, target: Seq<char>, input: Seq<char>)
    ensures
        match input_at(connections, target, input) {
            Some(i) => 0 <= i < connections.len() && connections[i].target@ == target
                && connections[i].target_input@ == input && forall|j: int|
                0 <= j < i ==> !(connections[j].target@ == target && connections[j].target_input@
                    == input),
            None => forall|j: int|
                0 <= j < connections.len() ==> !(connections[j].target@ == target
                    && connections[j].target_input@ == input),
        },
    decreases connections.len(),
{
    if connections.len() > 0 {
        lemma_input_at(connections.drop_last(), target, input);
        assert(forall|j: int|
            0 <= j < connections.len() - 1 ==> connections.drop_last()[j] == connections[j]);
    }
}

/// What `sink_at` finds is the first sink, and it finds one where there is
/// one.
pub proof fn lemma_sink_at(nodes: Seq<GraphNode>)
    ensures
        match sink_at(nodes) {
            Some(i) => 0 <= i < nodes.len() && nodes[i].node is MapNode && forall|j: int|
                0 <= j < i ==> !(nodes[j].node is MapNode),
            None => forall|j: int| 0 <= j < nodes.len() ==> !(nodes[j].node is MapNode),
        },
    decreases nodes.len(),
{
    if nodes.len() > 0 {
        lemma_sink_at(nodes.drop_last());
        assert(forall|j: int| 0 <= j < nodes.len() - 1 ==> nodes.drop_last()[j] == nodes[j]);
    }
}

/// Whether both ends of every connection are nodes of the graph.
pub open spec fn ends_exist(nodes: Seq<GraphNode>, connections: Seq<GraphConnection>) -> bool {
    forall|i: int|
        0 <= i < connections.len() ==> node_at(nodes, (#[trigger] connections[i]).source@) is Some
            && node_at(nodes, connections[i].target@) is Some
}

/// What validation makes of a graph: a cycle among the connections is
/// reported first, then a missing sink, then a connection to or from a node
/// that is not there. A graph without such a fault gives the identifier of
/// its sink.
pub open spec fn validation(graph: Graph) -> Result<Seq<char>, GraphErrorView> {
    if has_cycle(graph.connections@) {
        Err(GraphErrorView::Cycle)
    } else {
        match sink_at(graph.nodes@) {
            None => Err(GraphErrorView::MapMissing),
            Some(sink) => if ends_exist(graph.nodes@, graph.connections@) {
                Ok(graph.nodes@[sink].id@)
            } else {
                Err(GraphErrorView::ConnectionNodeMissing)
            },
        }
    }
}

/// Whether no connection leads out of a sink. A sink has no output, so a
/// graph that is drawn by the rules has no such connection; in one that
/// has, the node at the other end waits in vain.
pub open spec fn sinks_end(graph: Graph) -> bool {
    forall|i: int|
        0 <= i < graph.connections@.len() ==> match node_at(
            graph.nodes@,
            (#[trigger] graph.connections@[i]).source@,
        ) {
            Some(n) => !(graph.nodes@[n].node is MapNode),
            None => true,
        }
}

impl Graph {
    /// Where the node with the identifier `id` stands.
    pub fn find_node(&self, id: &str) -> (found: Option<usize>)
        ensures
            match found {
                Some(i) => node_at(self.nodes@, id@) == Some(i as int) && i < self.nodes@.len(),
                None => node_at(self.nodes@, id@) is None,
            },
    {
        proof {
            lemma_node_at(self.nodes@, id@);
        }
        let mut i: usize = self.nodes.len();
        while i > 0
            invariant
                i <= self.nodes.len(),
                forall|j: int| i <= j < self.nodes@.len() ==> self.nodes@[j].id@ != id@,
            decreases i,
        {
            i -= 1;
            if text_is(self.nodes[i].id.as_str(), id) {
                proof {
                    lemma_node_at(self.nodes@, id@);
                }
                return Some(i);
            }
        }
        None
    }

    /// Where the first connection to the input `input` of the node `target`
    /// stands.
    pub fn find_connection(&self, target: &str, input: &str) -> (found: Option<usize>)
        ensures
            match found {
                Some(i) => input_at(self.connections@, target@, input@) == Some(i as int) && i
                    < self.connections@.len(),
                None => input_at(self.connections@, target@, input@) is None,
            },
    {
        proof {
            lemma_input_at(self.connections@, target@, input@);
        }
        let mut i: usize = 0;
        while i < self.connections.len()
            invariant
                i <= self.connections.len(),
                forall|j: int|
                    0 <= j < i ==> !(self.connections@[j].target@ == target@
                        && self.connections@[j].target_input@ == input@),
            decreases self.connections.len() - i,
        {
            if text_is(self.connections[i].target.as_str(), target) && text_is(
                self.connections[i].target_input.as_str(),
                input,
            ) {
                proof {
                    lemma_input_at(self.connections@, target@, input@);
                }
                return Some(i);
            }
            i += 1;
        }
        None
    }

    /// The sink of the graph: the first node of that kind.
    pub fn map_node(&self) -> (found: Result<usize, GraphError>)
        ensures
            match found {
                Ok(i) => sink_at(self.nodes@) == Some(i as int) && i < self.nodes@.len(),
                Err(e) => sink_at(self.nodes@) is None && e@ == GraphErrorView::MapMissing,
            },
    {
        proof {
            lemma_sink_at(self.nodes@);
        }
        let mut i: usize = 0;
        while i < self.nodes.len()
            invariant
                i <= self.nodes.len(),
                forall|j: int| 0 <= j < i ==> !(self.nodes@[j].node is MapNode),
            decreases self.nodes.len() - i,
        {
            match &self.nodes[i].node {
                GraphNodeInternal::MapNode(_) => {
                    proof {
                        lemma_sink_at(self.nodes@);
                    }
                    return Ok(i);
                },
                _ => {},
            }
            i += 1;
        }
        Err(GraphError::MapMissing)
    }

    /// Whether both ends of every connection are nodes of the graph.
    pub fn connections_resolve(&self) -> (all: bool)
        ensures
            all == ends_exist(self.nodes@, self.connections@),
    {
        let mut i: usize = 0;
        while i < self.connections.len()
            invariant
                i <= self.connections.len(),
                forall|j: int|
                    0 <= j < i ==> node_at(self.nodes@, (#[trigger] self.connections@[j]).source@)
                        is Some && node_at(self.nodes@, self.connections@[j].target@) is Some,
            decreases self.connections.len() - i,
        {
            let source = self.find_node(self.connections[i].source.as_str());
            let target = self.find_node(self.connections[i].target.as_str());
            if source.is_none() || target.is_none() {
                return false;
            }
            i += 1;
        }
        true
    }

    /// Validates the graph and finds its sink.
    pub fn validate(&self) -> (out: Result<usize, GraphError>)
        ensures
            match out {
                Ok(sink) => sink < self.nodes@.len() && sink_at(self.nodes@) == Some(sink as int)
                    && validation(*self) == Ok::<Seq<char>, GraphErrorView>(
                    self.nodes@[sink as int].id@,
                ),
                Err(e) => validation(*self) == Err::<Seq<char>, GraphErrorView>(e@),
            },
    {
        if detect_cycles(&self.connections) {
            return Err(GraphError::Cycle);
        }
        let sink = self.map_node()?;
        if !self.connections_resolve() {
            return Err(GraphError::ConnectionNodeMissing);
        }
        Ok(sink)
    }
}

} // verus!
