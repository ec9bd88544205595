//! The errors of graph evaluation.

use vstd::prelude::*;
use vstd::string::*;
use crate::nominatim::NominatimError;
use crate::nominatim::NominatimErrorView;
use crate::nominatim::nominatim_error_text;

verus! {

#[derive(Clone, Debug, PartialEq, Eq)]
pub enum GraphError {
    /// A connection refers to a node that the graph does not hold.
    ConnectionNodeMissing,
    /// The connections form a directed cycle.
    Cycle,
    /// The graph holds no sink.
    MapMissing,
    /// An input of the node is not connected.
    InputMissing { node_id: String },
    /// The query service refused the query; `error` is its answer and
    /// `query` the text that was sent.
    OqlSyntax { node_id: String, error: String, query: String },
    RoadAngle { message: String, node_id: String },
    RoadLength { message: String, node_id: String },
    /// A node was handed an output of the wrong kind.
    WrongInputType { got: String, expected: String },
    /// The query service answered with something that is no document of
    /// elements.
    OverpassJsonError,
    /// The query service could not be reached; the text describes the
    /// failure.
    Network(String),
    Nominatim(NominatimError),
    /// The node is of a kind that is reserved and does no work yet.
    NotImplemented { node_id: String },
    /// The node is wired to an input of another node, but gives no output:
    /// a sink is where a graph ends.
    NoOutput { node_id: String },
}

pub enum GraphErrorView {
    ConnectionNodeMissing,
    Cycle,
    MapMissing,
    InputMissing { node_id: Seq<char> },
    OqlSyntax { node_id: Seq<char>, error: Seq<char>, query: Seq<char> },
    RoadAngle { message: Seq<char>, node_id: Seq<char> },
    RoadLength { message: Seq<char>, node_id: Seq<char> },
    WrongInputType { got: Seq<char>, expected: Seq<char> },
    OverpassJsonError,
    Network(Seq<char>),
    Nominatim(NominatimErrorView),
    NotImplemented { node_id: Seq<char> },
    NoOutput { node_id: Seq<char> },
}

impl View for GraphError {
    type V = GraphErrorView;

    open spec fn view(&self) -> GraphErrorView {
        match self {
            GraphError::ConnectionNodeMissing => GraphErrorView::ConnectionNodeMissing,
            GraphError::Cycle => GraphErrorView::Cycle,
            GraphError::MapMissing => GraphErrorView::MapMissing,
            GraphError::InputMissing { node_id } => GraphErrorView::InputMissing {
                node_id: node_id@,
            },
            GraphError::OqlSyntax { node_id, error, query } => GraphErrorView::OqlSyntax {
                node_id: node_id@,
                error: error@,
                query: query@,
            },
            GraphError::RoadAngle { message, node_id } => GraphErrorView::RoadAngle {
                message: message@,
                node_id: node_id@,
            },
            GraphError::RoadLength { message, node_id } => GraphErrorView::RoadLength {
                message: message@,
                node_id: node_id@,
            },
            GraphError::WrongInputType { got, expected } => GraphErrorView::WrongInputType {
                got: got@,
                expected: expected@,
            },
            GraphError::OverpassJsonError => GraphErrorView::OverpassJsonError,
            GraphError::Network(m) => GraphErrorView::Network(m@),
            GraphError::Nominatim(e) => GraphErrorView::Nominatim(e@),
            GraphError::NotImplemented { node_id } => GraphErrorView::NotImplemented {
                node_id: node_id@,
            },
            GraphError::NoOutput { node_id } => GraphErrorView::NoOutput { node_id: node_id@ },
        }
    }
}

/// The text that describes the error `e`.
pub open spec fn graph_error_text(e: GraphErrorView) -> Seq<char> {
    match e {
        GraphErrorView::ConnectionNodeMissing => "Connection refers to a non-existing node"@,
        GraphErrorView::Cycle => "The provided graph contains a cycle"@,
        GraphErrorView::MapMissing => "Graph is missing a Map node"@,
        GraphErrorView::InputMissing { .. } => "Node has no input"@,
        GraphErrorView::OqlSyntax { .. } => "Oql syntax error"@,
        GraphErrorView::RoadAngle { message, .. } => "Road angle: "@ + message,
        GraphErrorView::RoadLength { message, .. } => "Road length: "@ + message,
        GraphErrorView::WrongInputType { got, expected } => "Node has wrong input type "@ + got
            + ", expected "@ + expected,
        GraphErrorView::OverpassJsonError => "Error parsing Overpass json"@,
        GraphErrorView::Network(_) => "network error"@,
        GraphErrorView::Nominatim(e) => "nominatim error "@ + nominatim_error_text(e),
        GraphErrorView::NotImplemented { .. } => "Node is not implemented"@,
        GraphErrorView::NoOutput { .. } => "Node has no output"@,
    }
}

/// The identifier of the node that the error `e` is about, where it names
/// one for the caller to point at.
pub open spec fn graph_error_node(e: GraphErrorView) -> Option<Seq<char>> {
    match e {
        GraphErrorView::OqlSyntax { node_id, .. } => Some(node_id),
        GraphErrorView::InputMissing { node_id } => Some(node_id),
        _ => None,
    }
}

impl GraphError {
    /// The text that describes this error.
    pub fn message(&self) -> (text: String)
        ensures
            text@ == graph_error_text(self@),
    {
        match self {
            GraphError::ConnectionNodeMissing => String::from_str(
                "Connection refers to a non-existing node",
            ),
            GraphError::Cycle => String::from_str("The provided graph contains a cycle"),
            GraphError::MapMissing => String::from_str("Graph is missing a Map node"),
            GraphError::InputMissing { .. } => String::from_str("Node has no input"),
            GraphError::OqlSyntax { .. } => String::from_str("Oql syntax error"),
            GraphError::RoadAngle { message, .. } => {
                let mut text = String::from_str("Road angle: ");
                text.append(message.as_str());
                text
            },
            GraphError::RoadLength { message, .. } => {
                let mut text = String::from_str("Road length: ");
                text.append(message.as_str());
                text
            },
            GraphError::WrongInputType { got, expected } => {
                let mut text = String::from_str("Node has wrong input type ");
                text.append(got.as_str());
                text.append(", expected ");
                text.append(expected.as_str());
                text
            },
            GraphError::OverpassJsonError => String::from_str("Error parsing Overpass json"),
            GraphError::Network(_) => String::from_str("network error"),
            GraphError::Nominatim(e) => {
                let mut text = String::from_str("nominatim error ");
                let inner = e.message();
                text.append(inner.as_str());
                text
            },
            GraphError::NotImplemented { .. } => String::from_str("Node is not implemented"),
            GraphError::NoOutput { .. } => String::from_str("Node has no output"),
        }
    }

    /// The identifier of the node that this error is about, where it names
    /// one for the caller to point at.
    pub fn node_id(&self) -> (id: Option<&String>)
        ensures
            match id {
                Some(s) => graph_error_node(self@) == Some(s@),
                None => graph_error_node(self@) is None,
            },
    {
        match self {
            GraphError::OqlSyntax { node_id, .. } => Some(node_id),
            GraphError::InputMissing { node_id } => Some(node_id),
            _ => None,
        }
    }

    /// A copy of this error.
    pub fn duplicate(&self) -> (copy: GraphError)
        ensures
            copy@ == self@,
    {
        match self {
            GraphError::ConnectionNodeMissing => GraphError::ConnectionNodeMissing,
            GraphError::Cycle => GraphError::Cycle,
            GraphError::MapMissing => GraphError::MapMissing,
            GraphError::InputMissing { node_id } => GraphError::InputMissing {
                node_id: node_id.clone(),
            },
            GraphError::OqlSyntax { node_id, error, query } => GraphError::OqlSyntax {
                node_id: node_id.clone(),
                error: error.clone(),
                query: query.clone(),
            },
            GraphError::RoadAngle { message, node_id } => GraphError::RoadAngle {
                message: message.clone(),
                node_id: node_id.clone(),
            },
            GraphError::RoadLength { message, node_id } => GraphError::RoadLength {
                message: message.clone(),
                node_id: node_id.clone(),
            },
            GraphError::WrongInputType { got, expected } => GraphError::WrongInputType {
                got: got.clone(),
                expected: expected.clone(),
            },
            GraphError::OverpassJsonError => GraphError::OverpassJsonError,
            GraphError::Network(m) => GraphError::Network(m.clone()),
            GraphError::Nominatim(e) => GraphError::Nominatim(e.duplicate()),
            GraphError::NotImplemented { node_id } => GraphError::NotImplemented {
                node_id: node_id.clone(),
            },
            GraphError::NoOutput { node_id } => GraphError::NoOutput { node_id: node_id.clone() },
        }
    }
}

} // verus!
