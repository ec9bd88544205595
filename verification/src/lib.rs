//! Backend logic for composing OpenStreetMap queries from a node graph:
//! query text, macro expansion, conversion of query results to features,
//! feature filters, and the evaluation of the graph itself.

pub mod elevation;
pub mod geojson;
pub mod graph;
pub mod nominatim;
pub mod osm_to_geojson;
pub mod preprocess;
pub mod search;
pub mod taginfo;
pub mod text;
