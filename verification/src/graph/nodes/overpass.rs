//! A node that sends a query to the query service.

use vstd::prelude::*;
use vstd::string::*;
use crate::graph::Control;
use crate::graph::errors::GraphError;
use crate::graph::errors::GraphErrorView;
use crate::graph::process::Reply;
use crate::osm_to_geojson::Osm;
use crate::osm_to_geojson::osm_features;
use crate::osm_to_geojson::osm_to_geojson;
use crate::search::GeocodeaArea;

verus! {

#[derive(Clone, Debug, PartialEq, Eq)]
pub struct Overpass {
    pub timeout: Control<u32>,
}

/// The address of the query service.
pub const INTERPRETER_URL: &'static str = "https://overpass-api.de/api/interpreter";

/// The status with which the query service accepts a query.
pub const STATUS_OK: u16 = 200;

/// What the query service answered.
#[derive(Debug, PartialEq)]
pub struct OverpassAnswer {
    /// The status of the answer.
    pub status: u16,
    /// The answer as text.
    pub body: String,
    /// The answer decoded as a document of elements, where it is one.
    pub document: Option<Osm>,
}

/// What the answer `answer` to the query `query`, sent for the node
/// `node_id`, comes to. An answer with another status than 200 is a
/// refusal of the query, reported with the text of the answer and the
/// query as it was sent. An accepted query must have a document for an
/// answer; its elements become the features. `geocode_areas` are the
/// areas that the query named; they are handed on.
pub fn run(
    answer: OverpassAnswer,
    node_id: &str,
    query: String,
    geocode_areas: Vec<GeocodeaArea>,
) -> (out: Result<Reply, GraphError>)
    ensures
        answer.status != STATUS_OK ==> (out matches Err(e) && e@ == (GraphErrorView::OqlSyntax {
            node_id: node_id@,
            error: answer.body@,
            query: query@,
        })),
        answer.status == STATUS_OK && answer.document is None ==> (out matches Err(e) && e@
            == GraphErrorView::OverpassJsonError),
        answer.status == STATUS_OK && answer.document is Some ==> (out matches Ok(
            Reply::Overpass { collection, geocode_areas: areas, query: sent },
        ) && collection@ == osm_features(answer.document->0.elements@) && areas
            == geocode_areas && sent == query),
{
    if answer.status != STATUS_OK {
        return Err(
            GraphError::OqlSyntax {
                node_id: String::from_str(node_id),
                error: answer.body,
                query,
            },
        );
    }
    match answer.document {
        None => Err(GraphError::OverpassJsonError),
        Some(osm) => Ok(
            Reply::Overpass { collection: osm_to_geojson(osm), geocode_areas, query },
        ),
    }
}

} // verus!
