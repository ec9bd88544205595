use underpass::geojson::{Feature, FeatureCollection, Geometry, Position, Property, PropertyValue};
use underpass::graph::errors::GraphError;
use underpass::graph::nodes::elevation_filter::ElevationFilter;
use underpass::graph::nodes::in_view_of::InViewOf;
use underpass::graph::nodes::map::MapNode;
use underpass::graph::nodes::oql::Oql;
use underpass::graph::nodes::oql_difference::OqlDifference;
use underpass::graph::nodes::oql_statement::OqlStatement;
use underpass::graph::nodes::oql_union::OqlUnion;
use underpass::graph::nodes::overpass::{run, Overpass, OverpassAnswer};
use underpass::graph::nodes::road_angle_filter::RoadAngleFilter;
use underpass::graph::nodes::road_length_filter::RoadLengthFilter;
use underpass::graph::nodes::union::Union;
use underpass::graph::nodes::{GraphNode, GraphNodeInternal};
use underpass::graph::output::{NodeOutput, OutputKind};
use underpass::graph::process::{
    inputs_of, process_graph, Action, NodeProcessor, ProcessResult, ProcessedQuery, Reply,
};
use underpass::graph::utils::detect_cycles;
use underpass::graph::{Control, Graph, GraphConnection};
use underpass::osm_to_geojson::{Element, Node, Osm, Tags};
use underpass::search::GeocodeaArea;

fn control<T>(value: T) -> Control<T> {
    Control {
        id: "c".to_string(),
        value,
    }
}

fn node(id: &str, node: GraphNodeInternal) -> GraphNode {
    GraphNode {
        id: id.to_string(),
        node,
    }
}

fn sink(id: &str) -> GraphNode {
    node(id, GraphNodeInternal::MapNode(MapNode {}))
}

fn oql(id: &str, query: &str) -> GraphNode {
    node(
        id,
        GraphNodeInternal::Oql(Oql {
            query: control(query.to_string()),
        }),
    )
}

fn overpass(id: &str, timeout: u32) -> GraphNode {
    node(
        id,
        GraphNodeInternal::Overpass(Overpass {
            timeout: control(timeout),
        }),
    )
}

fn angle(id: &str) -> GraphNode {
    node(
        id,
        GraphNodeInternal::RoadAngleFilter(RoadAngleFilter {
            min: control((-90.0f64).to_bits()),
            max: control(90.0f64.to_bits()),
        }),
    )
}

fn wire(source: &str, target: &str, input: &str) -> GraphConnection {
    GraphConnection {
        id: format!("{source}-{target}-{input}"),
        source: source.to_string(),
        source_output: "out".to_string(),
        target: target.to_string(),
        target_input: input.to_string(),
    }
}

fn point(id: u64) -> Feature {
    Feature {
        id: Some(id),
        geometry: Some(Geometry::Point(Position {
            lng: 1.0f64.to_bits(),
            lat: 2.0f64.to_bits(),
        })),
        properties: Some(vec![Property {
            key: "name".to_string(),
            value: PropertyValue::Tag(serde_json::Value::from("x")),
        }]),
    }
}

fn points(ids: &[u64]) -> FeatureCollection {
    FeatureCollection {
        features: ids.iter().map(|id| point(*id)).collect(),
    }
}

fn finished(processor: NodeProcessor) -> Result<ProcessResult, GraphError> {
    match processor.advance().1 {
        Action::Finished(result) => result,
        other => panic!("the evaluation asks for {other:?}"),
    }
}

#[test]
fn cycle_is_rejected_before_any_work() {
    let graph = Graph {
        nodes: vec![sink("m"), overpass("a", 1), overpass("b", 1)],
        connections: vec![wire("a", "b", "query"), wire("b", "a", "query"), wire("a", "m", "in")],
    };
    let processor = process_graph(graph);
    assert_eq!(finished(processor), Err(GraphError::Cycle));
}

#[test]
fn two_nodes_wired_in_a_circle_are_a_cycle() {
    let connections = vec![wire("A", "B", "in"), wire("B", "A", "in")];
    assert!(detect_cycles(&connections));
}

#[test]
fn detect_cycles_tells_chains_from_circles() {
    assert!(!detect_cycles(&vec![]));
    assert!(!detect_cycles(&vec![
        wire("a", "b", "in"),
        wire("b", "c", "in"),
        wire("a", "c", "aux"),
    ]));
    assert!(detect_cycles(&vec![wire("a", "a", "in")]));
    assert!(detect_cycles(&vec![
        wire("a", "b", "in"),
        wire("b", "c", "in"),
        wire("c", "a", "in"),
    ]));
}

#[test]
fn unwired_sink_gives_an_empty_result() {
    let graph = Graph {
        nodes: vec![sink("m")],
        connections: vec![],
    };
    let result = finished(process_graph(graph)).unwrap();
    assert!(result.collection.features.is_empty());
    assert!(result.geocode_areas.is_empty());
    assert!(result.processed_queries.is_empty());
    assert_eq!(result, ProcessResult::default());
}

#[test]
fn sink_wired_at_another_input_counts_as_unwired() {
    let graph = Graph {
        nodes: vec![sink("m"), oql("q", "x")],
        connections: vec![wire("q", "m", "other")],
    };
    assert_eq!(finished(process_graph(graph)), Ok(ProcessResult::default()));
}

#[test]
fn filter_wired_to_a_query_is_a_type_mismatch() {
    let graph = Graph {
        nodes: vec![sink("m"), angle("f"), oql("q", "node;")],
        connections: vec![wire("q", "f", "in"), wire("f", "m", "in")],
    };
    assert_eq!(
        finished(process_graph(graph)),
        Err(GraphError::WrongInputType {
            got: "query".to_string(),
            expected: "geojson".to_string(),
        })
    );
}

#[test]
fn query_that_reaches_the_sink_is_a_type_mismatch() {
    let graph = Graph {
        nodes: vec![sink("m"), oql("q", "node;")],
        connections: vec![wire("q", "m", "in")],
    };
    assert_eq!(
        finished(process_graph(graph)),
        Err(GraphError::WrongInputType {
            got: "query".to_string(),
            expected: "geojson".to_string(),
        })
    );
}

#[test]
fn features_wired_to_a_query_input_are_a_type_mismatch() {
    let graph = Graph {
        nodes: vec![
            sink("m"),
            overpass("o", 1),
            overpass("p", 1),
            oql("q", "node;"),
        ],
        connections: vec![
            wire("q", "p", "query"),
            wire("p", "o", "query"),
            wire("o", "m", "in"),
        ],
    };
    let processor = process_graph(graph);
    let (processor, action) = processor.advance();
    assert_eq!(
        action,
        Action::Overpass {
            node_id: "p".to_string(),
            query: "node;".to_string(),
            timeout: 1,
        }
    );
    let (processor, taken) = processor.supply(Reply::Overpass {
        collection: points(&[1]),
        geocode_areas: vec![],
        query: "sent".to_string(),
    });
    assert!(taken);
    assert_eq!(
        finished(processor),
        Err(GraphError::WrongInputType {
            got: "geojson".to_string(),
            expected: "query".to_string(),
        })
    );
}

#[test]
fn missing_sink_is_reported() {
    let graph = Graph {
        nodes: vec![oql("q", "node;")],
        connections: vec![],
    };
    assert_eq!(graph.validate(), Err(GraphError::MapMissing));
    assert_eq!(finished(process_graph(graph)), Err(GraphError::MapMissing));
}

#[test]
fn connection_to_nowhere_is_reported() {
    let graph = Graph {
        nodes: vec![sink("m"), oql("q", "node;")],
        connections: vec![wire("ghost", "q", "in")],
    };
    assert_eq!(graph.validate(), Err(GraphError::ConnectionNodeMissing));
    assert_eq!(
        finished(process_graph(graph)),
        Err(GraphError::ConnectionNodeMissing)
    );
}

#[test]
fn cycle_comes_before_a_missing_sink() {
    let graph = Graph {
        nodes: vec![oql("a", "x")],
        connections: vec![wire("a", "a", "in")],
    };
    assert_eq!(graph.validate(), Err(GraphError::Cycle));
}

#[test]
fn validate_finds_the_first_sink() {
    let graph = Graph {
        nodes: vec![oql("q", "x"), sink("m"), sink("n")],
        connections: vec![],
    };
    assert_eq!(graph.validate(), Ok(1));
    assert_eq!(graph.map_node(), Ok(1));
}

#[test]
fn missing_input_names_the_node() {
    let graph = Graph {
        nodes: vec![sink("m"), overpass("o", 5)],
        connections: vec![wire("o", "m", "in")],
    };
    let result = finished(process_graph(graph));
    assert_eq!(
        result,
        Err(GraphError::InputMissing {
            node_id: "o".to_string()
        })
    );
    assert_eq!(result.unwrap_err().node_id(), Some(&"o".to_string()));
}

#[test]
fn overpass_asks_with_the_query_and_takes_the_answer() {
    let graph = Graph {
        nodes: vec![sink("m"), overpass("o", 25), oql("q", "node({{bbox}});")],
        connections: vec![wire("q", "o", "query"), wire("o", "m", "in")],
    };
    let processor = process_graph(graph);
    let (processor, action) = processor.advance();
    assert_eq!(
        action,
        Action::Overpass {
            node_id: "o".to_string(),
            query: "node({{bbox}});".to_string(),
            timeout: 25,
        }
    );
    // asking again gives the same work
    let (processor, again) = processor.advance();
    assert_eq!(again, action);
    // a reply of the wrong kind is not taken
    let (processor, taken) = processor.supply(Reply::Filtered(points(&[9])));
    assert!(!taken);
    let area = GeocodeaArea {
        id: 7,
        ty: "relation".to_string(),
        name: "Somewhere".to_string(),
        original: "somewhere".to_string(),
    };
    let (processor, taken) = processor.supply(Reply::Overpass {
        collection: points(&[1, 2]),
        geocode_areas: vec![area.clone()],
        query: "[out:json];node(1,2,3,4);".to_string(),
    });
    assert!(taken);
    let result = finished(processor).unwrap();
    assert_eq!(result.collection, points(&[1, 2]));
    assert_eq!(result.geocode_areas, vec![area]);
    assert_eq!(
        result.processed_queries,
        vec![ProcessedQuery {
            node_id: "o".to_string(),
            query: "[out:json];node(1,2,3,4);".to_string(),
        }]
    );
}

#[test]
fn a_reply_without_a_question_is_not_taken() {
    let graph = Graph {
        nodes: vec![sink("m")],
        connections: vec![],
    };
    let (processor, taken) = process_graph(graph).supply(Reply::Filtered(points(&[1])));
    assert!(!taken);
    assert_eq!(finished(processor), Ok(ProcessResult::default()));
}

#[test]
fn shared_node_is_computed_once_and_inputs_go_in_order() {
    // q feeds o; o feeds both inputs of the union u; u feeds the filter f.
    let graph = Graph {
        nodes: vec![
            sink("m"),
            angle("f"),
            node("u", GraphNodeInternal::Union(Union {})),
            overpass("o", 3),
            overpass("p", 4),
            oql("q", "way;"),
        ],
        connections: vec![
            wire("f", "m", "in"),
            wire("u", "f", "in"),
            wire("p", "u", "b"),
            wire("o", "u", "a"),
            wire("q", "o", "query"),
            wire("q", "p", "query"),
        ],
    };
    let processor = process_graph(graph);
    let (processor, first) = processor.advance();
    assert!(matches!(&first, Action::Overpass { node_id, timeout: 3, .. } if node_id == "o"));
    let (processor, taken) = processor.supply(Reply::Overpass {
        collection: points(&[1]),
        geocode_areas: vec![],
        query: "first".to_string(),
    });
    assert!(taken);
    let (processor, second) = processor.advance();
    assert!(matches!(&second, Action::Overpass { node_id, timeout: 4, .. } if node_id == "p"));
    let (processor, taken) = processor.supply(Reply::Overpass {
        collection: points(&[2, 3]),
        geocode_areas: vec![],
        query: "second".to_string(),
    });
    assert!(taken);
    let (processor, third) = processor.advance();
    assert_eq!(
        third,
        Action::RoadAngleFilter {
            node_id: "f".to_string(),
            min: (-90.0f64).to_bits(),
            max: 90.0f64.to_bits(),
            collection: points(&[1, 2, 3]),
        }
    );
    let (processor, taken) = processor.supply(Reply::Filtered(points(&[3])));
    assert!(taken);
    let result = finished(processor).unwrap();
    assert_eq!(result.collection, points(&[3]));
    let sent: Vec<&str> = result
        .processed_queries
        .iter()
        .map(|q| q.node_id.as_str())
        .collect();
    assert_eq!(sent, vec!["o", "p"]);
}

#[test]
fn node_that_feeds_two_inputs_is_asked_once() {
    let graph = Graph {
        nodes: vec![
            sink("m"),
            node("u", GraphNodeInternal::Union(Union {})),
            overpass("o", 3),
            oql("q", "way;"),
        ],
        connections: vec![
            wire("u", "m", "in"),
            wire("o", "u", "a"),
            wire("o", "u", "b"),
            wire("q", "o", "query"),
        ],
    };
    let processor = process_graph(graph);
    let (processor, first) = processor.advance();
    assert!(matches!(first, Action::Overpass { .. }));
    let (processor, taken) = processor.supply(Reply::Overpass {
        collection: points(&[1, 2]),
        geocode_areas: vec![],
        query: "sent".to_string(),
    });
    assert!(taken);
    let result = finished(processor).unwrap();
    assert_eq!(result.collection, points(&[1, 2, 1, 2]));
    assert_eq!(result.processed_queries.len(), 1);
}

#[test]
fn queries_are_composed_before_they_are_sent() {
    let statement = OqlStatement {
        nodes: control(true),
        ways: control(false),
        relations: control(false),
        key: control("amenity".to_string()),
        value: control("bench".to_string()),
    };
    let graph = Graph {
        nodes: vec![
            sink("m"),
            overpass("o", 9),
            node("d", GraphNodeInternal::OqlDifference(OqlDifference {})),
            node("u", GraphNodeInternal::OqlUnion(OqlUnion {})),
            node("s", GraphNodeInternal::OqlStatement(statement)),
            oql("q", "way;"),
        ],
        connections: vec![
            wire("o", "m", "in"),
            wire("d", "o", "query"),
            wire("u", "d", "a"),
            wire("q", "d", "b"),
            wire("s", "u", "a"),
            wire("q", "u", "b"),
        ],
    };
    let (_, action) = process_graph(graph).advance();
    assert_eq!(
        action,
        Action::Overpass {
            node_id: "o".to_string(),
            query: "((node[amenity=bench]({{bbox}}); way;); - way;);".to_string(),
            timeout: 9,
        }
    );
}

#[test]
fn reserved_node_fails_once_its_inputs_are_there() {
    let graph = Graph {
        nodes: vec![
            sink("m"),
            node("v", GraphNodeInternal::InViewOf(InViewOf {})),
            overpass("o", 3),
            oql("q", "way;"),
        ],
        connections: vec![
            wire("v", "m", "in"),
            wire("o", "v", "in"),
            wire("o", "v", "aux"),
            wire("q", "o", "query"),
        ],
    };
    let (processor, action) = process_graph(graph).advance();
    assert!(matches!(action, Action::Overpass { .. }));
    let (processor, taken) = processor.supply(Reply::Overpass {
        collection: points(&[1]),
        geocode_areas: vec![],
        query: "sent".to_string(),
    });
    assert!(taken);
    assert_eq!(
        finished(processor),
        Err(GraphError::NotImplemented {
            node_id: "v".to_string()
        })
    );
}

#[test]
fn reserved_node_without_input_reports_the_input() {
    let graph = Graph {
        nodes: vec![sink("m"), node("v", GraphNodeInternal::InViewOf(InViewOf {}))],
        connections: vec![wire("v", "m", "in")],
    };
    assert_eq!(
        finished(process_graph(graph)),
        Err(GraphError::InputMissing {
            node_id: "v".to_string()
        })
    );
}

#[test]
fn later_node_with_the_same_identifier_counts() {
    let graph = Graph {
        nodes: vec![sink("m"), oql("q", "first"), oql("q", "second"), overpass("o", 1)],
        connections: vec![wire("o", "m", "in"), wire("q", "o", "query")],
    };
    assert_eq!(graph.find_node("q"), Some(2));
    let (_, action) = process_graph(graph).advance();
    assert_eq!(
        action,
        Action::Overpass {
            node_id: "o".to_string(),
            query: "second".to_string(),
            timeout: 1,
        }
    );
}

#[test]
fn first_connection_to_an_input_counts() {
    let graph = Graph {
        nodes: vec![sink("m"), oql("a", "first"), oql("b", "second"), overpass("o", 1)],
        connections: vec![
            wire("o", "m", "in"),
            wire("a", "o", "query"),
            wire("b", "o", "query"),
        ],
    };
    assert_eq!(graph.find_connection("o", "query"), Some(1));
    assert_eq!(graph.find_connection("o", "in"), None);
    let (_, action) = process_graph(graph).advance();
    assert!(matches!(action, Action::Overpass { query, .. } if query == "first"));
}

#[test]
fn filters_ask_with_their_settings() {
    let length = node(
        "l",
        GraphNodeInternal::RoadLengthFilter(RoadLengthFilter {
            min: control(1.0f64.to_bits()),
            max: control(2.0f64.to_bits()),
            tolerance: control(3.0f64.to_bits()),
        }),
    );
    let elevation = node(
        "e",
        GraphNodeInternal::ElevationFilter(ElevationFilter {
            min: control(-5),
            max: control(10),
        }),
    );
    let graph = Graph {
        nodes: vec![sink("m"), elevation, length, overpass("o", 1), oql("q", "x")],
        connections: vec![
            wire("e", "m", "in"),
            wire("l", "e", "in"),
            wire("o", "l", "in"),
            wire("q", "o", "query"),
        ],
    };
    let (processor, _) = process_graph(graph).advance();
    let (processor, _) = processor.supply(Reply::Overpass {
        collection: points(&[1]),
        geocode_areas: vec![],
        query: "sent".to_string(),
    });
    let (processor, action) = processor.advance();
    assert_eq!(
        action,
        Action::RoadLengthFilter {
            node_id: "l".to_string(),
            min: 1.0f64.to_bits(),
            max: 2.0f64.to_bits(),
            tolerance: 3.0f64.to_bits(),
            collection: points(&[1]),
        }
    );
    let (processor, _) = processor.supply(Reply::Filtered(points(&[4])));
    let (processor, action) = processor.advance();
    assert_eq!(
        action,
        Action::ElevationFilter {
            node_id: "e".to_string(),
            min: -5,
            max: 10,
            collection: points(&[4]),
        }
    );
    let (processor, _) = processor.supply(Reply::Filtered(points(&[])));
    assert_eq!(finished(processor).unwrap().collection, points(&[]));
}

#[test]
fn sink_wired_to_itself_is_a_cycle() {
    let graph = Graph {
        nodes: vec![sink("m")],
        connections: vec![wire("m", "m", "in")],
    };
    assert_eq!(graph.validate(), Err(GraphError::Cycle));
    assert_eq!(finished(process_graph(graph)), Err(GraphError::Cycle));
}

#[test]
fn second_sink_has_no_output_to_give() {
    let graph = Graph {
        nodes: vec![sink("m"), sink("n")],
        connections: vec![wire("n", "m", "in")],
    };
    assert_eq!(graph.validate(), Ok(0));
    let result = finished(process_graph(graph));
    assert_eq!(
        result,
        Err(GraphError::NoOutput {
            node_id: "n".to_string()
        })
    );
    assert_eq!(result.unwrap_err().message(), "Node has no output");
}

#[test]
fn second_sink_behind_a_node_is_found_when_it_is_asked() {
    let graph = Graph {
        nodes: vec![
            sink("m"),
            sink("n"),
            node("u", GraphNodeInternal::Union(Union {})),
            overpass("o", 1),
            oql("q", "x"),
        ],
        connections: vec![
            wire("u", "m", "in"),
            wire("o", "u", "a"),
            wire("n", "u", "b"),
            wire("q", "o", "query"),
        ],
    };
    let (processor, action) = process_graph(graph).advance();
    assert!(matches!(action, Action::Overpass { .. }));
    let (processor, taken) = processor.supply(Reply::Overpass {
        collection: points(&[1]),
        geocode_areas: vec![],
        query: "sent".to_string(),
    });
    assert!(taken);
    assert_eq!(
        finished(processor),
        Err(GraphError::NoOutput {
            node_id: "n".to_string()
        })
    );
}

#[test]
fn connection_out_of_a_sink_that_is_never_walked_does_no_harm() {
    let graph = Graph {
        nodes: vec![sink("m"), sink("n"), oql("q", "x"), overpass("o", 1), overpass("p", 1)],
        connections: vec![
            wire("o", "m", "in"),
            wire("q", "o", "query"),
            wire("n", "p", "query"),
        ],
    };
    assert!(graph.connections_resolve());
    let (_, action) = process_graph(graph).advance();
    assert!(matches!(action, Action::Overpass { node_id, .. } if node_id == "o"));
}

#[test]
fn oql_union_is_written_with_both_queries() {
    let out = OqlUnion {}.process("node;", "way;");
    assert_eq!(out, NodeOutput::Query("(node; way;);".to_string()));
}

#[test]
fn oql_difference_is_written_with_both_queries() {
    let out = OqlDifference {}.process("node;", "way;");
    assert_eq!(out, NodeOutput::Query("(node; - way;);".to_string()));
}

#[test]
fn union_keeps_every_feature_of_both_inputs() {
    let a = points(&[1, 2]);
    let b = points(&[2, 3, 4]);
    let out = Union {}.process(&a, &b).into_features().unwrap();
    assert_eq!(out.features.len(), a.features.len() + b.features.len());
    assert_eq!(out, points(&[1, 2, 2, 3, 4]));
}

fn statement(nodes: bool, ways: bool, relations: bool, value: &str) -> String {
    let node = OqlStatement {
        nodes: control(nodes),
        ways: control(ways),
        relations: control(relations),
        key: control("k".to_string()),
        value: control(value.to_string()),
    };
    node.process().into_query().unwrap()
}

#[test]
fn statement_names_the_types_of_element() {
    assert_eq!(statement(true, true, true, ""), "nwr[k]({{bbox}});");
    assert_eq!(statement(true, true, false, ""), "nw[k]({{bbox}});");
    assert_eq!(statement(true, false, true, ""), "nr[k]({{bbox}});");
    assert_eq!(statement(false, true, true, ""), "wr[k]({{bbox}});");
    assert_eq!(statement(true, false, false, ""), "node[k]({{bbox}});");
    assert_eq!(statement(false, true, false, ""), "way[k]({{bbox}});");
    assert_eq!(statement(false, false, true, ""), "relation[k]({{bbox}});");
    assert_eq!(statement(false, false, false, ""), "nwr[k]({{bbox}});");
    assert_eq!(statement(false, true, false, "v"), "way[k=v]({{bbox}});");
}

#[test]
fn outputs_are_unwrapped_by_kind() {
    assert_eq!(
        NodeOutput::Query("q".to_string()).into_features(),
        Err(GraphError::WrongInputType {
            got: "query".to_string(),
            expected: "geojson".to_string(),
        })
    );
    assert_eq!(
        NodeOutput::Features(points(&[1])).into_query(),
        Err(GraphError::WrongInputType {
            got: "geojson".to_string(),
            expected: "query".to_string(),
        })
    );
    assert_eq!(NodeOutput::Query("q".to_string()).into_query(), Ok("q".to_string()));
    assert_eq!(NodeOutput::Features(points(&[1])).into_features(), Ok(points(&[1])));
    assert_eq!(NodeOutput::Features(points(&[1])).kind(), OutputKind::Features);
    assert_eq!(
        NodeOutput::Features(points(&[1, 2])).duplicate(),
        NodeOutput::Features(points(&[1, 2]))
    );
}

#[test]
fn inputs_are_named_by_kind_of_node() {
    let (first, second) = inputs_of(&GraphNodeInternal::InViewOf(InViewOf {}));
    assert_eq!(first.unwrap().name, "in");
    assert_eq!(second.unwrap().name, "aux");
    let (first, second) = inputs_of(&GraphNodeInternal::Overpass(Overpass {
        timeout: control(1),
    }));
    assert_eq!(first.unwrap().name, "query");
    assert_eq!(first.unwrap().kind, OutputKind::Query);
    assert!(second.is_none());
}

fn answer(status: u16, body: &str, document: Option<Osm>) -> OverpassAnswer {
    OverpassAnswer {
        status,
        body: body.to_string(),
        document,
    }
}

#[test]
fn refused_query_is_reported_with_answer_and_query() {
    let out = run(
        answer(400, "<html>line 1: parse error</html>", None),
        "o",
        "sent".to_string(),
        vec![],
    );
    assert_eq!(
        out,
        Err(GraphError::OqlSyntax {
            node_id: "o".to_string(),
            error: "<html>line 1: parse error</html>".to_string(),
            query: "sent".to_string(),
        })
    );
}

#[test]
fn accepted_query_needs_a_document() {
    let out = run(answer(200, "not json", None), "o", "sent".to_string(), vec![]);
    assert_eq!(out, Err(GraphError::OverpassJsonError));
}

#[test]
fn accepted_query_gives_the_features_of_the_document() {
    let osm = Osm {
        elements: vec![Element::Node(Node {
            id: 5,
            lat: 2.0f64.to_bits(),
            lon: 1.0f64.to_bits(),
            tags: Tags::Missing,
        })],
    };
    let out = run(answer(200, "{}", Some(osm)), "o", "sent".to_string(), vec![]).unwrap();
    match out {
        Reply::Overpass {
            collection,
            geocode_areas,
            query,
        } => {
            assert_eq!(collection.features.len(), 1);
            assert_eq!(collection.features[0].id, Some(5));
            assert!(geocode_areas.is_empty());
            assert_eq!(query, "sent");
        }
        other => panic!("unexpected reply {other:?}"),
    }
}

#[test]
fn replies_in_order_give_the_result() {
    let area = |id: u64| GeocodeaArea {
        id,
        ty: "relation".to_string(),
        name: format!("area {id}"),
        original: format!("search {id}"),
    };
    let graph = Graph {
        nodes: vec![
            sink("m"),
            node("u", GraphNodeInternal::Union(Union {})),
            overpass("o", 3),
            overpass("p", 4),
            oql("q", "way;"),
        ],
        connections: vec![
            wire("u", "m", "in"),
            wire("o", "u", "a"),
            wire("p", "u", "b"),
            wire("q", "o", "query"),
            wire("q", "p", "query"),
        ],
    };
    let replies = vec![
        Reply::Overpass {
            collection: points(&[1]),
            geocode_areas: vec![area(1), area(2)],
            query: "first".to_string(),
        },
        // no filter waits for a reply: this one is passed over
        Reply::Filtered(points(&[9])),
        Reply::Overpass {
            collection: points(&[2]),
            geocode_areas: vec![area(3)],
            query: "second".to_string(),
        },
    ];
    let (_, action) = process_graph(graph).replay(replies);
    assert_eq!(
        action,
        Action::Finished(Ok(ProcessResult {
            collection: points(&[1, 2]),
            geocode_areas: vec![area(1), area(2), area(3)],
            processed_queries: vec![
                ProcessedQuery {
                    node_id: "o".to_string(),
                    query: "first".to_string(),
                },
                ProcessedQuery {
                    node_id: "p".to_string(),
                    query: "second".to_string(),
                },
            ],
        }))
    );
}

#[test]
fn replies_that_run_out_leave_the_next_question() {
    let graph = Graph {
        nodes: vec![sink("m"), angle("f"), overpass("o", 3), oql("q", "way;")],
        connections: vec![wire("f", "m", "in"), wire("o", "f", "in"), wire("q", "o", "query")],
    };
    let (processor, action) = process_graph(graph).replay(vec![Reply::Overpass {
        collection: points(&[1]),
        geocode_areas: vec![],
        query: "sent".to_string(),
    }]);
    assert!(matches!(action, Action::RoadAngleFilter { .. }));
    let (_, action) = processor.replay(vec![Reply::Filtered(points(&[]))]);
    assert!(matches!(action, Action::Finished(Ok(_))));
}
