//! The kinds of node and what each computes.

use vstd::prelude::*;
use crate::graph::nodes::elevation_filter::ElevationFilter;
use crate::graph::nodes::in_view_of::InViewOf;
use crate::graph::nodes::map::MapNode;
use crate::graph::nodes::oql::Oql;
use crate::graph::nodes::oql_difference::OqlDifference;
use crate::graph::nodes::oql_statement::OqlStatement;
use crate::graph::nodes::oql_union::OqlUnion;
use crate::graph::nodes::overpass::Overpass;
use crate::graph::nodes::road_angle_filter::RoadAngleFilter;
use crate::graph::nodes::road_length_filter::RoadLengthFilter;
use crate::graph::nodes::union::Union;
use crate::graph::output::OutputKind;

pub mod elevation_filter;
pub mod in_view_of;
pub mod map;
pub mod oql;
pub mod oql_difference;
pub mod oql_statement;
pub mod oql_union;
pub mod overpass;
pub mod road_angle_filter;
pub mod road_length_filter;
pub mod union;

verus! {

/// A node of a graph: its identifier within the graph, and what it is.
#[derive(Debug, PartialEq)]
pub struct GraphNode {
    pub id: String,
    pub node: GraphNodeInternal,
}

/// The kinds of node, each with its settings.
#[derive(Debug, PartialEq)]
pub enum GraphNodeInternal {
    /// The sink: what reaches it is the result of the graph.
    MapNode(MapNode),
    Oql(Oql),
    OqlStatement(OqlStatement),
    OqlUnion(OqlUnion),
    OqlDifference(OqlDifference),
    Overpass(Overpass),
    RoadAngleFilter(RoadAngleFilter),
    RoadLengthFilter(RoadLengthFilter),
    ElevationFilter(ElevationFilter),
    Union(Union),
    InViewOf(InViewOf),
}

/// The kind of output that a node gives: a query from the nodes that write
/// one, features from the others. The sink gives nothing, and neither does
/// a node of the reserved kind.
pub open spec fn output_kind(node: GraphNodeInternal) -> Option<OutputKind> {
    match node {
        GraphNodeInternal::MapNode(_) => None,
        GraphNodeInternal::InViewOf(_) => None,
        GraphNodeInternal::Oql(_) => Some(OutputKind::Query),
        GraphNodeInternal::OqlStatement(_) => Some(OutputKind::Query),
        GraphNodeInternal::OqlUnion(_) => Some(OutputKind::Query),
        GraphNodeInternal::OqlDifference(_) => Some(OutputKind::Query),
        GraphNodeInternal::Overpass(_) => Some(OutputKind::Features),
        GraphNodeInternal::RoadAngleFilter(_) => Some(OutputKind::Features),
        GraphNodeInternal::RoadLengthFilter(_) => Some(OutputKind::Features),
        GraphNodeInternal::ElevationFilter(_) => Some(OutputKind::Features),
        GraphNodeInternal::Union(_) => Some(OutputKind::Features),
    }
}

} // verus!
