use std::collections::BTreeMap;

use underpass::geojson::{Feature, Geometry, Position, Property, PropertyValue};
use underpass::osm_to_geojson::{
    element_to_feature, element_to_geometry, insert_property, osm_to_geojson, Area, Element, Node,
    Osm, Relation, Tags, Way,
};

fn p(lng: f64, lat: f64) -> Position {
    Position {
        lng: lng.to_bits(),
        lat: lat.to_bits(),
    }
}

fn tag(key: &str, value: &str) -> Property {
    Property {
        key: key.to_string(),
        value: PropertyValue::Tag(serde_json::Value::from(value)),
    }
}

fn number(key: &str, value: u64) -> Property {
    Property {
        key: key.to_string(),
        value: PropertyValue::Number(value),
    }
}

fn text(key: &str, value: &str) -> Property {
    Property {
        key: key.to_string(),
        value: PropertyValue::Text(value.to_string()),
    }
}

fn node(id: u64, lng: f64, lat: f64, tags: Tags) -> Element {
    Element::Node(Node {
        id,
        lat: lat.to_bits(),
        lon: lng.to_bits(),
        tags,
    })
}

fn way(id: u64, nodes: &[u64], tags: Tags) -> Element {
    Element::Way(Way {
        id,
        nodes: nodes.to_vec(),
        tags,
    })
}

#[test]
fn node_becomes_a_point_with_its_tags() {
    let osm = Osm {
        elements: vec![node(
            5,
            1.5,
            2.5,
            Tags::Object(vec![tag("amenity", "bench")]),
        )],
    };
    let out = osm_to_geojson(osm);
    assert_eq!(
        out.features,
        vec![Feature {
            id: Some(5),
            geometry: Some(Geometry::Point(p(1.5, 2.5))),
            properties: Some(vec![
                tag("amenity", "bench"),
                number("osm_id", 5),
                text("osm_type", "node"),
            ]),
        }]
    );
}

#[test]
fn way_becomes_a_line_through_the_nodes_that_are_there() {
    let osm = Osm {
        elements: vec![
            node(1, 0.0, 0.0, Tags::Missing),
            node(2, 1.0, 1.0, Tags::Missing),
            way(10, &[1, 99, 2], Tags::Missing),
        ],
    };
    let out = osm_to_geojson(osm);
    assert_eq!(out.features.len(), 3);
    assert_eq!(
        out.features[2],
        Feature {
            id: Some(10),
            geometry: Some(Geometry::LineString(vec![p(0.0, 0.0), p(1.0, 1.0)])),
            properties: Some(vec![
                number("osm_id", 10),
                text("osm_type", "way"),
                Property {
                    key: "__children_ids".to_string(),
                    value: PropertyValue::Numbers(vec![1, 99, 2]),
                },
            ]),
        }
    );
    // the nodes of the way know their way
    assert_eq!(
        out.features[0].properties,
        Some(vec![
            number("osm_id", 1),
            text("osm_type", "node"),
            number("__way_id", 10),
        ])
    );
}

#[test]
fn last_way_of_a_node_counts() {
    let osm = Osm {
        elements: vec![
            way(10, &[1], Tags::Missing),
            node(1, 0.0, 0.0, Tags::Missing),
            way(11, &[1], Tags::Missing),
        ],
    };
    let out = osm_to_geojson(osm);
    assert_eq!(
        out.features[1].properties,
        Some(vec![
            number("osm_id", 1),
            text("osm_type", "node"),
            number("__way_id", 11),
        ])
    );
}

#[test]
fn later_node_with_the_same_identifier_gives_the_position() {
    let osm = Osm {
        elements: vec![
            node(1, 0.0, 0.0, Tags::Missing),
            node(1, 5.0, 5.0, Tags::Missing),
            way(10, &[1], Tags::Missing),
        ],
    };
    let out = osm_to_geojson(osm);
    assert_eq!(
        out.features[2].geometry,
        Some(Geometry::LineString(vec![p(5.0, 5.0)]))
    );
}

#[test]
fn area_becomes_nothing() {
    let osm = Osm {
        elements: vec![
            Element::Area(Area {
                id: 3,
                tags: Tags::Missing,
            }),
            node(1, 0.0, 0.0, Tags::Missing),
        ],
    };
    let out = osm_to_geojson(osm);
    assert_eq!(out.features.len(), 1);
    assert_eq!(out.features[0].id, Some(1));
}

#[test]
fn relation_becomes_the_collection_of_its_members() {
    let inner = Element::Relation(Relation {
        id: 21,
        tags: Tags::Missing,
        members: vec![node(4, 4.0, 4.0, Tags::Missing)],
    });
    let relation = Element::Relation(Relation {
        id: 20,
        tags: Tags::Object(vec![tag("type", "route")]),
        members: vec![
            node(3, 3.0, 3.0, Tags::Missing),
            Element::Area(Area {
                id: 9,
                tags: Tags::Missing,
            }),
            way(10, &[1, 2], Tags::Missing),
            inner,
        ],
    });
    let osm = Osm {
        elements: vec![node(1, 1.0, 1.0, Tags::Missing), relation],
    };
    let out = osm_to_geojson(osm);
    assert_eq!(out.features.len(), 2);
    assert_eq!(
        out.features[1],
        Feature {
            id: Some(20),
            geometry: Some(Geometry::GeometryCollection(vec![
                Geometry::Point(p(3.0, 3.0)),
                Geometry::LineString(vec![p(1.0, 1.0)]),
                Geometry::GeometryCollection(vec![Geometry::Point(p(4.0, 4.0))]),
            ])),
            properties: Some(vec![
                tag("type", "route"),
                number("osm_id", 20),
                text("osm_type", "relation"),
            ]),
        }
    );
}

#[test]
fn tags_that_are_no_object_give_no_properties() {
    let osm = Osm {
        elements: vec![node(1, 0.0, 0.0, Tags::Other)],
    };
    let out = osm_to_geojson(osm);
    assert_eq!(
        out.features,
        vec![Feature {
            id: Some(1),
            geometry: Some(Geometry::Point(p(0.0, 0.0))),
            properties: None,
        }]
    );
}

#[test]
fn identifier_and_type_replace_tags_of_the_same_name() {
    let osm = Osm {
        elements: vec![node(
            1,
            0.0,
            0.0,
            Tags::Object(vec![tag("osm_type", "tagged"), tag("name", "n")]),
        )],
    };
    let out = osm_to_geojson(osm);
    assert_eq!(
        out.features[0].properties,
        Some(vec![
            text("osm_type", "node"),
            tag("name", "n"),
            number("osm_id", 1),
        ])
    );
}

#[test]
fn property_is_replaced_or_added() {
    let mut props = vec![tag("a", "1"), tag("b", "2")];
    insert_property(&mut props, "b", PropertyValue::Number(3));
    insert_property(&mut props, "c", PropertyValue::Number(4));
    assert_eq!(props, vec![tag("a", "1"), number("b", 3), number("c", 4)]);
}

#[test]
fn elements_tell_their_identifier_type_and_tags() {
    let el = node(7, 0.0, 0.0, Tags::Other);
    assert_eq!(el.id(), 7);
    assert_eq!(el.osm_type(), "node");
    assert_eq!(el.tags(), &Tags::Other);
    assert_eq!(way(8, &[], Tags::Missing).osm_type(), "way");
    let area = Element::Area(Area {
        id: 9,
        tags: Tags::Missing,
    });
    assert_eq!(area.osm_type(), "area");
    assert_eq!(area.id(), 9);
}

#[test]
fn single_elements_are_converted_with_the_maps_given() {
    let mut node_map = BTreeMap::new();
    node_map.insert(1, p(1.0, 1.0));
    let mut way_map = BTreeMap::new();
    way_map.insert(2, 50);
    let el = way(10, &[1, 2], Tags::Missing);
    assert_eq!(
        element_to_geometry(&el, &node_map),
        Some(Geometry::LineString(vec![p(1.0, 1.0)]))
    );
    let area = Element::Area(Area {
        id: 9,
        tags: Tags::Missing,
    });
    assert_eq!(element_to_geometry(&area, &node_map), None);
    assert_eq!(element_to_feature(&area, &node_map, &way_map), None);
    let feature = element_to_feature(&node(2, 0.0, 0.0, Tags::Missing), &node_map, &way_map);
    assert_eq!(
        feature.unwrap().properties,
        Some(vec![
            number("osm_id", 2),
            text("osm_type", "node"),
            number("__way_id", 50),
        ])
    );
}
