use underpass::geojson::{
    copy_positions, Feature, FeatureCollection, Geometry, Position, Property, PropertyValue,
};
use underpass::graph::errors::GraphError;
use underpass::graph::nodes::{elevation_filter, road_angle_filter, road_length_filter};
use underpass::graph::utils::{new_id, RAF_NUMBER, RLF_NUMBER};

fn p(lng: f64, lat: f64) -> Position {
    Position {
        lng: lng.to_bits(),
        lat: lat.to_bits(),
    }
}

fn lng(p: Position) -> f64 {
    f64::from_bits(p.lng)
}

fn props() -> Option<Vec<Property>> {
    Some(vec![
        Property {
            key: "highway".to_string(),
            value: PropertyValue::Tag(serde_json::Value::from("residential")),
        },
        Property {
            key: "osm_id".to_string(),
            value: PropertyValue::Number(7),
        },
    ])
}

fn line(id: Option<u64>, coords: &[f64]) -> Feature {
    Feature {
        id,
        geometry: Some(Geometry::LineString(
            coords.iter().map(|x| p(*x, 0.0)).collect(),
        )),
        properties: props(),
    }
}

fn point(id: u64, x: f64) -> Feature {
    Feature {
        id: Some(id),
        geometry: Some(Geometry::Point(p(x, 0.0))),
        properties: props(),
    }
}

fn collection(features: Vec<Feature>) -> FeatureCollection {
    FeatureCollection { features }
}

fn segment(id: Option<u64>, a: f64, b: f64) -> Feature {
    line(id, &[a, b])
}

#[test]
fn new_identifier_is_shifted() {
    assert_eq!(new_id(Some(5), RAF_NUMBER), Some(2_000_000_000_000_005));
    assert_eq!(new_id(Some(5), RLF_NUMBER), Some(1_000_000_000_000_005));
    assert_eq!(new_id(None, RLF_NUMBER), None);
    assert_eq!(new_id(Some(u64::MAX), 1), None);
    assert_eq!(new_id(Some(u64::MAX - 1), 1), Some(u64::MAX));
}

#[test]
fn road_angle_keeps_the_segments_in_range() {
    let input = collection(vec![
        line(Some(10), &[0.0, 1.0, 5.0, 6.0]),
        point(11, 3.0),
        line(None, &[2.0, 3.0]),
        line(Some(12), &[9.0]),
        Feature {
            id: Some(13),
            geometry: None,
            properties: None,
        },
    ]);
    // keep the segments that are no longer than one
    let out = road_angle_filter::filter(input, false, |a, b| lng(b) - lng(a) <= 1.0, "n").unwrap();
    assert_eq!(
        out,
        collection(vec![
            segment(Some(10 + RAF_NUMBER), 0.0, 1.0),
            segment(Some(10 + RAF_NUMBER), 5.0, 6.0),
            segment(None, 2.0, 3.0),
        ])
    );
}

#[test]
fn road_angle_with_an_open_range_keeps_every_segment() {
    let input = collection(vec![line(Some(1), &[0.0, 1.0, 2.0]), line(Some(2), &[5.0, 4.0])]);
    let out = road_angle_filter::filter(input, false, |_, _| true, "n").unwrap();
    assert_eq!(
        out,
        collection(vec![
            segment(Some(1 + RAF_NUMBER), 0.0, 1.0),
            segment(Some(1 + RAF_NUMBER), 1.0, 2.0),
            segment(Some(2 + RAF_NUMBER), 5.0, 4.0),
        ])
    );
}

#[test]
fn road_angle_refuses_bounds_in_the_wrong_order() {
    let out = road_angle_filter::filter(collection(vec![]), true, |_, _| true, "node-1");
    assert_eq!(
        out,
        Err(GraphError::RoadAngle {
            message: "The min flag has a greater value than the max flag!".to_string(),
            node_id: "node-1".to_string(),
        })
    );
    assert_eq!(
        out.unwrap_err().message(),
        "Road angle: The min flag has a greater value than the max flag!"
    );
}

#[test]
fn road_length_groups_positions_into_runs() {
    // positions 0 1 2 go on by one, 10 breaks the run, 11 12 go on, 30 is left over
    let input = collection(vec![
        line(Some(3), &[0.0, 1.0, 2.0, 10.0, 11.0, 12.0, 30.0]),
        point(4, 1.0),
    ]);
    let aligned = |a: Position, _b: Position, c: Position| lng(c) - lng(a) < 5.0;
    let out =
        road_length_filter::filter(input, false, false, aligned, |_, _| true, "n").unwrap();
    assert_eq!(
        out,
        collection(vec![
            line(Some(3 + RLF_NUMBER), &[0.0, 1.0, 2.0]),
            line(Some(3 + RLF_NUMBER), &[10.0, 11.0, 12.0]),
        ])
    );
}

#[test]
fn road_length_keeps_the_runs_in_range() {
    let input = collection(vec![line(Some(3), &[0.0, 1.0, 2.0, 10.0, 11.0])]);
    let aligned = |a: Position, _b: Position, c: Position| lng(c) - lng(a) < 5.0;
    // the first run is two long, the second one
    let in_range = |a: Position, b: Position| lng(b) - lng(a) > 1.5;
    let out = road_length_filter::filter(input, false, false, aligned, in_range, "n").unwrap();
    assert_eq!(out, collection(vec![line(Some(3 + RLF_NUMBER), &[0.0, 1.0, 2.0])]));
}

#[test]
fn road_length_starts_a_run_with_two_positions_whatever_their_bearing() {
    let input = collection(vec![line(None, &[0.0, 100.0, 200.0, 300.0])]);
    let out =
        road_length_filter::filter(input, false, false, |_, _, _| false, |_, _| true, "n").unwrap();
    assert_eq!(
        out,
        collection(vec![line(None, &[0.0, 100.0]), line(None, &[200.0, 300.0])])
    );
}

#[test]
fn road_length_refuses_bad_bounds() {
    let wrong_order = road_length_filter::filter(
        collection(vec![]),
        true,
        true,
        |_, _, _| true,
        |_, _| true,
        "n",
    );
    assert_eq!(
        wrong_order,
        Err(GraphError::RoadLength {
            message: "The min flag has a greater value than the max flag".to_string(),
            node_id: "n".to_string(),
        })
    );
    let negative = road_length_filter::filter(
        collection(vec![]),
        false,
        true,
        |_, _, _| true,
        |_, _| true,
        "n",
    );
    assert_eq!(
        negative,
        Err(GraphError::RoadLength {
            message: "Min and Max have to be positive values".to_string(),
            node_id: "n".to_string(),
        })
    );
    assert_eq!(
        negative.unwrap_err().message(),
        "Road length: Min and Max have to be positive values"
    );
}

fn elevation_at(position: Position) -> i32 {
    // the elevation at a position is ten times its longitude
    (lng(position) * 10.0) as i32
}

#[test]
fn elevation_keeps_points_within_the_range_as_they_are() {
    let input = collection(vec![point(1, 1.0), point(2, 2.0), point(3, 3.0), point(4, 4.0)]);
    let out = elevation_filter::filter(input, 20, 30, "n", elevation_at).unwrap();
    assert_eq!(out, collection(vec![point(2, 2.0), point(3, 3.0)]));
}

#[test]
fn elevation_keeps_segments_with_an_end_in_the_range() {
    let input = collection(vec![
        line(Some(8), &[0.0, 1.0, 2.0, 3.0, 4.0]),
        line(Some(9), &[2.0]),
        Feature {
            id: Some(10),
            geometry: Some(Geometry::GeometryCollection(vec![Geometry::Point(p(2.0, 0.0))])),
            properties: None,
        },
    ]);
    let out = elevation_filter::filter(input, 20, 20, "n", elevation_at).unwrap();
    assert_eq!(
        out,
        collection(vec![
            segment(Some(8 + RAF_NUMBER), 1.0, 2.0),
            segment(Some(8 + RAF_NUMBER), 2.0, 3.0),
        ])
    );
}

#[test]
fn elevation_lookups_follow_the_features() {
    let input = collection(vec![
        point(1, 1.0),
        line(Some(2), &[2.0, 3.0]),
        line(Some(3), &[4.0]),
        point(4, 5.0),
    ]);
    let positions = elevation_filter::lookup_positions(&input);
    let wanted: Vec<f64> = positions.iter().map(|x| lng(*x)).collect();
    assert_eq!(wanted, vec![1.0, 2.0, 3.0, 5.0]);
    let out = elevation_filter::filter_with(input, 0, 25, "n", &vec![10, 20, 30, 50]).unwrap();
    assert_eq!(
        out,
        collection(vec![point(1, 1.0), segment(Some(2 + RAF_NUMBER), 2.0, 3.0)])
    );
}

#[test]
fn elevation_refuses_bounds_in_the_wrong_order() {
    let out = elevation_filter::filter(collection(vec![point(1, 1.0)]), 5, 4, "n", |_| {
        panic!("no elevation is looked up")
    });
    assert_eq!(
        out,
        Err(GraphError::RoadAngle {
            message: "The min flag has a greater value than the max flag!".to_string(),
            node_id: "n".to_string(),
        })
    );
}

#[test]
fn copies_are_equal_to_what_they_copy() {
    let feature = Feature {
        id: Some(1),
        geometry: Some(Geometry::GeometryCollection(vec![
            Geometry::Point(p(1.0, 2.0)),
            Geometry::LineString(vec![p(1.0, 2.0), p(3.0, 4.0)]),
            Geometry::GeometryCollection(vec![]),
        ])),
        properties: Some(vec![
            Property {
                key: "a".to_string(),
                value: PropertyValue::Tag(serde_json::Value::from(vec![1, 2, 3])),
            },
            Property {
                key: "b".to_string(),
                value: PropertyValue::Numbers(vec![4, 5]),
            },
            Property {
                key: "c".to_string(),
                value: PropertyValue::Text("t".to_string()),
            },
        ]),
    };
    assert_eq!(feature.duplicate(), feature);
    let all = collection(vec![feature, point(2, 1.0)]);
    assert_eq!(all.duplicate(), all);
    assert_eq!(FeatureCollection::empty(), collection(vec![]));
    let positions = vec![p(0.0, 0.0), p(1.0, 0.0), p(2.0, 0.0)];
    assert_eq!(copy_positions(&positions, 1, 3), vec![p(1.0, 0.0), p(2.0, 0.0)]);
}
