//! The elevation filter: the points, and the segments of lines, that lie at
//! an elevation within a range.

use vstd::prelude::*;
use vstd::string::*;
use crate::geojson::Feature;
use crate::geojson::FeatureCollection;
use crate::geojson::FeatureView;
use crate::geojson::Geometry;
use crate::geojson::GeometryView;
use crate::geojson::Position;
use crate::geojson::copy_optional_properties;
use crate::geojson::features_view;
use crate::geojson::lemma_features_view_push;
use crate::geojson::lemma_features_view_step;
use crate::graph::Control;
use crate::graph::errors::GraphError;
use crate::graph::errors::GraphErrorView;
use crate::graph::nodes::road_angle_filter::segment_feature;
use crate::graph::utils::RAF_NUMBER;
use crate::graph::utils::new_id;

verus! {

/// The settings of an elevation filter: the bounds of the elevation.
#[derive(Clone, Debug, PartialEq, Eq)]
pub struct ElevationFilter {
    pub min: Control<i32>,
    pub max: Control<i32>,
}

/// The positions of one feature whose elevation the filter asks for: the
/// position of a point, every position of a line of two or more, none of
/// anything else.
pub open spec fn feature_lookups(f: FeatureView) -> Seq<Position> {
    match f.geometry {
        Some(GeometryView::Point(p)) => seq![p],
        Some(GeometryView::LineString(line)) => if line.len() >= 2 {
            line
        } else {
            Seq::empty()
        },
        _ => Seq::empty(),
    }
}

/// The positions whose elevation the filter asks for, in the order of the
/// features.
pub open spec fn lookups(features: Seq<FeatureView>) -> Seq<Position>
    decreases features.len(),
{
    if features.len() == 0 {
        Seq::empty()
    } else {
        lookups(features.drop_last()) + feature_lookups(features.last())
    }
}

/// Whether the elevation `e` lies in the range, bounds included.
pub open spec fn within(min: i32, max: i32, e: i32) -> bool {
    min <= e <= max
}

/// The features for those of the first `n` segments of `line` that have an
/// end within the range, in order; `elevations` holds the elevation of each
/// position of the line.
pub open spec fn accepted_segments(
    f: FeatureView,
    line: Seq<Position>,
    elevations: Seq<i32>,
    min: i32,
    max: i32,
    n: int,
) -> Seq<FeatureView>
    decreases n,
{
    if n <= 0 {
        Seq::empty()
    } else {
        let before = accepted_segments(f, line, elevations, min, max, n - 1);
        if within(min, max, elevations[n - 1]) || within(min, max, elevations[n]) {
            before.push(segment_feature(f, line[n - 1], line[n], RAF_NUMBER))
        } else {
            before
        }
    }
}

/// What the filter makes of one feature, given the elevations of its
/// positions: a point stays as it is where it lies within the range, a line
/// gives its accepted segments, and anything else gives nothing.
pub open spec fn filtered_feature(f: FeatureView, elevations: Seq<i32>, min: i32, max: i32) -> Seq<
    FeatureView,
> {
    match f.geometry {
        Some(GeometryView::Point(_)) => if within(min, max, elevations[0]) {
            seq![f]
        } else {
            Seq::empty()
        },
        Some(GeometryView::LineString(line)) => accepted_segments(
            f,
            line,
            elevations,
            min,
            max,
            line.len() - 1,
        ),
        _ => Seq::empty(),
    }
}

/// What the filter makes of `features`, given the elevation of each of
/// `lookups(features)`.
pub open spec fn filtered(features: Seq<FeatureView>, elevations: Seq<i32>, min: i32, max: i32) -> Seq<
    FeatureView,
>
    decreases features.len(),
{
    if features.len() == 0 {
        Seq::empty()
    } else {
        let used = lookups(features.drop_last()).len() as int;
        filtered(features.drop_last(), elevations, min, max) + filtered_feature(
            features.last(),
            elevations.subrange(used, used + feature_lookups(features.last()).len()),
            min,
            max,
        )
    }
}

/// The error for a range whose lower bound lies above its upper bound.
pub open spec fn bounds_error(node_id: Seq<char>) -> GraphErrorView {
    GraphErrorView::RoadAngle {
        message: "The min flag has a greater value than the max flag!"@,
        node_id,
    }
}

/// The positions of `collection` whose elevation the filter asks for.
pub fn lookup_positions(collection: &FeatureCollection) -> (positions: Vec<Position>)
    ensures
        positions@ == lookups(collection@),
{
    let mut positions: Vec<Position> = Vec::new();
    let mut i: usize = 0;
    while i < collection.features.len()
        invariant
            i <= collection.features.len(),
            positions@ == lookups(features_view(collection.features@.subrange(0, i as int))),
        decreases collection.features.len() - i,
    {
        let feature = &collection.features[i];
        let ghost base = positions@;
        proof {
            lemma_features_view_step(collection.features@, i as int);
        }
        match &feature.geometry {
            Some(Geometry::Point(p)) => {
                positions.push(*p);
                assert(positions@ =~= base + feature_lookups(feature@));
            },
            Some(Geometry::LineString(line)) => {
                if line.len() >= 2 {
                    let mut j: usize = 0;
                    while j < line.len()
                        invariant
                            j <= line.len(),
                            positions@ == base + line@.subrange(0, j as int),
                        decreases line.len() - j,
                    {
                        positions.push(line[j]);
                        j += 1;
                        assert(positions@ =~= base + line@.subrange(0, j as int));
                    }
                    assert(line@.subrange(0, j as int) =~= line@);
                } else {
                    assert(positions@ =~= base + feature_lookups(feature@));
                }
            },
            _ => {
                assert(positions@ =~= base + feature_lookups(feature@));
            },
        }
        i += 1;
    }
    assert(collection.features@.subrange(0, i as int) =~= collection.features@);
    positions
}

/// Filters `collection` by the elevations given: `elevations` holds the
/// elevation of each position of `lookups(collection@)`, in that order.
pub fn filter_with(
    collection: FeatureCollection,
    min: i32,
    max: i32,
    node_id: &str,
    elevations: &Vec<i32>,
) -> (out: Result<FeatureCollection, GraphError>)
    requires
        elevations.len() == lookups(collection@).len(),
    ensures
        min > max ==> (out matches Err(e) && e@ == bounds_error(node_id@)),
        min <= max ==> (out matches Ok(found) && found@ == filtered(
            collection@,
            elevations@,
            min,
            max,
        )),
{
    if min > max {
        return Err(
            GraphError::RoadAngle {
                message: String::from_str("The min flag has a greater value than the max flag!"),
                node_id: String::from_str(node_id),
            },
        );
    }
    let mut features: Vec<Feature> = Vec::new();
    let mut used: usize = 0;
    let mut i: usize = 0;
    while i < collection.features.len()
        invariant
            i <= collection.features.len(),
            elevations.len() == lookups(collection@).len(),
            used == lookups(features_view(collection.features@.subrange(0, i as int))).len(),
            features_view(features@) == filtered(
                features_view(collection.features@.subrange(0, i as int)),
                elevations@,
                min,
                max,
            ),
        decreases collection.features.len() - i,
    {
        let feature = &collection.features[i];
        let ghost base = features_view(features@);
        proof {
            lemma_features_view_step(collection.features@, i as int);
            lemma_lookups_prefix(collection@, i as int + 1);
            let next = features_view(collection.features@.subrange(0, i as int + 1));
            assert(collection@.subrange(0, i as int + 1) =~= next);
            assert(lookups(next) == lookups(next.drop_last()) + feature_lookups(next.last()));
        }
        let ghost mine = elevations@.subrange(
            used as int,
            used + feature_lookups(feature@).len(),
        );
        match &feature.geometry {
            Some(Geometry::Point(_)) => {
                let e = elevations[used];
                assert(mine[0] == e);
                if min <= e && e <= max {
                    let same = feature.duplicate();
                    proof {
                        lemma_features_view_push(features@, same);
                    }
                    features.push(same);
                    assert(features_view(features@) =~= base + filtered_feature(
                        feature@,
                        mine,
                        min,
                        max,
                    ));
                } else {
                    assert(features_view(features@) =~= base + filtered_feature(
                        feature@,
                        mine,
                        min,
                        max,
                    ));
                }
                used += 1;
            },
            Some(Geometry::LineString(line)) => {
                if line.len() >= 2 {
                    let mut j: usize = 0;
                    while j + 1 < line.len()
                        invariant
                            j < line.len(),
                            line.len() >= 2,
                            used + line.len() <= elevations.len(),
                            mine == elevations@.subrange(used as int, used + line.len()),
                            feature@.geometry == Some(GeometryView::LineString(line@)),
                            features_view(features@) == base + accepted_segments(
                                feature@,
                                line@,
                                mine,
                                min,
                                max,
                                j as int,
                            ),
                        decreases line.len() - j,
                    {
                        let a = line[j];
                        let b = line[j + 1];
                        let ea = elevations[used + j];
                        let eb = elevations[used + j + 1];
                        assert(mine[j as int] == ea && mine[j + 1] == eb);
                        let keep = (min <= ea && ea <= max) || (min <= eb && eb <= max);
                        if keep {
                            let mut ends: Vec<Position> = Vec::new();
                            ends.push(a);
                            ends.push(b);
                            assert(ends@ =~= seq![a, b]);
                            let segment = Feature {
                                id: new_id(feature.id, RAF_NUMBER),
                                geometry: Some(Geometry::LineString(ends)),
                                properties: copy_optional_properties(&feature.properties),
                            };
                            assert(segment@ == segment_feature(feature@, a, b, RAF_NUMBER));
                            proof {
                                lemma_features_view_push(features@, segment);
                            }
                            features.push(segment);
                        }
                        j += 1;
                        proof {
                            let sofar = accepted_segments(
                                feature@,
                                line@,
                                mine,
                                min,
                                max,
                                j - 1,
                            );
                            let now = accepted_segments(
                                feature@,
                                line@,
                                mine,
                                min,
                                max,
                                j as int,
                            );
                            if keep {
                                assert(now == sofar.push(
                                    segment_feature(feature@, a, b, RAF_NUMBER),
                                ));
                                assert(features_view(features@) =~= base + now);
                            } else {
                                assert(now == sofar);
                            }
                        }
                    }
                    used += line.len();
                } else {
                    assert(filtered_feature(feature@, mine, min, max) =~= Seq::<
                        FeatureView,
                    >::empty()) by {
                        reveal_with_fuel(accepted_segments, 2);
                    }
                    assert(features_view(features@) =~= base + filtered_feature(
                        feature@,
                        mine,
                        min,
                        max,
                    ));
                }
            },
            _ => {
                assert(filtered_feature(feature@, mine, min, max) =~= Seq::<FeatureView>::empty());
                assert(features_view(features@) =~= base + filtered_feature(
                    feature@,
                    mine,
                    min,
                    max,
                ));
            },
        }
        i += 1;
    }
    assert(collection.features@.subrange(0, i as int) =~= collection.features@);
    Ok(FeatureCollection { features })
}

/// The positions asked of the first `n` features are among those asked of
/// all of them.
pub proof fn lemma_lookups_prefix(features: Seq<FeatureView>, n: int)
    requires
        0 <= n <= features.len(),
    ensures
        lookups(features.subrange(0, n)).len() <= lookups(features).len(),
    decreases features.len() - n,
{
    if n < features.len() {
        lemma_lookups_prefix(features, n + 1);
        assert(features.subrange(0, n + 1).drop_last() =~= features.subrange(0, n));
    } else {
        assert(features.subrange(0, n) =~= features);
    }
}

/// Filters `collection` by elevation. `lookup` gives the elevation at a
/// position; it is asked once for each position of `lookups(collection@)`,
/// in order, and not at all where the lower bound lies above the upper one.
pub fn filter<F: Fn(Position) -> i32>(
    collection: FeatureCollection,
    min: i32,
    max: i32,
    node_id: &str,
    lookup: F,
) -> (out: Result<FeatureCollection, GraphError>)
    requires
        forall|p: Position| #[trigger] lookup.requires((p,)),
    ensures
        min > max ==> (out matches Err(e) && e@ == bounds_error(node_id@)),
        min <= max ==> (out matches Ok(found) && exists|elevations: Seq<i32>|
            {
                &&& elevations.len() == lookups(collection@).len()
                &&& forall|k: int|
                    0 <= k < elevations.len() ==> lookup.ensures(
                        (lookups(collection@)[k],),
                        #[trigger] elevations[k],
                    )
                &&& found@ == filtered(collection@, elevations, min, max)
            }),
{
    if min > max {
        return Err(
            GraphError::RoadAngle {
                message: String::from_str("The min flag has a greater value than the max flag!"),
                node_id: String::from_str(node_id),
            },
        );
    }
    let positions = lookup_positions(&collection);
    let mut elevations: Vec<i32> = Vec::new();
    let mut k: usize = 0;
    while k < positions.len()
        invariant
            k <= positions.len(),
            elevations.len() == k,
            forall|p: Position| #[trigger] lookup.requires((p,)),
            forall|j: int|
                0 <= j < k ==> lookup.ensures((positions@[j],), #[trigger] elevations@[j]),
        decreases positions.len() - k,
    {
        let e = lookup(positions[k]);
        elevations.push(e);
        k += 1;
    }
    filter_with(collection, min, max, node_id, &elevations)
}

} // verus!
