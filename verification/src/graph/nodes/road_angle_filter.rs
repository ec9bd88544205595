//! The road angle filter: the segments of each line whose bearing lies in a
//! range.

use vstd::prelude::*;
use vstd::string::*;
use crate::geojson::Feature;
use crate::geojson::FeatureCollection;
use crate::geojson::FeatureView;
use crate::geojson::Geometry;
use crate::geojson::GeometryView;
use crate::geojson::Position;
use crate::geojson::copy_optional_properties;
use crate::geojson::features_view;
use crate::geojson::lemma_features_view_push;
use crate::geojson::lemma_features_view_step;
use crate::graph::Control;
use crate::graph::errors::GraphError;
use crate::graph::errors::GraphErrorView;
use crate::graph::utils::RAF_NUMBER;
use crate::graph::utils::new_id;
use crate::graph::utils::shifted_id;

verus! {

/// The settings of a road angle filter: the bounds of the bearing, in
/// degrees, each as the bit pattern of a binary64 number.
#[derive(Clone, Debug, PartialEq, Eq)]
pub struct RoadAngleFilter {
    pub min: Control<u64>,
    pub max: Control<u64>,
}

/// A test on a segment that can be asked of every segment and has one
/// answer for each.
pub open spec fn decides<F: Fn(Position, Position) -> bool>(test: F) -> bool {
    forall|a: Position, b: Position|
        #![trigger test.requires((a, b))]
        test.requires((a, b)) && !(test.ensures((a, b), true) && test.ensures((a, b), false))
}

/// The feature for the segment from `a` to `b` of the feature `f`: the
/// segment as a line, the properties of `f`, and the identifier of `f`
/// shifted by `number`.
pub open spec fn segment_feature(f: FeatureView, a: Position, b: Position, number: u64) -> FeatureView {
    FeatureView {
        id: shifted_id(f.id, number),
        geometry: Some(GeometryView::LineString(seq![a, b])),
        properties: f.properties,
    }
}

/// The features for the first `n` segments of `line` that `test` accepts,
/// in order.
pub open spec fn accepted_segments<F: Fn(Position, Position) -> bool>(
    f: FeatureView,
    line: Seq<Position>,
    test: F,
    n: int,
) -> Seq<FeatureView>
    decreases n,
{
    if n <= 0 {
        Seq::empty()
    } else {
        let before = accepted_segments(f, line, test, n - 1);
        if test.ensures((line[n - 1], line[n]), true) {
            before.push(segment_feature(f, line[n - 1], line[n], RAF_NUMBER))
        } else {
            before
        }
    }
}

/// What the filter makes of one feature: the accepted segments of a line,
/// nothing of anything else.
pub open spec fn filtered_feature<F: Fn(Position, Position) -> bool>(
    f: FeatureView,
    test: F,
) -> Seq<FeatureView> {
    match f.geometry {
        Some(GeometryView::LineString(line)) => accepted_segments(f, line, test, line.len() - 1),
        _ => Seq::empty(),
    }
}

/// What the filter makes of `features`: what it makes of each, in order.
pub open spec fn filtered<F: Fn(Position, Position) -> bool>(
    features: Seq<FeatureView>,
    test: F,
) -> Seq<FeatureView>
    decreases features.len(),
{
    if features.len() == 0 {
        Seq::empty()
    } else {
        filtered(features.drop_last(), test) + filtered_feature(features.last(), test)
    }
}

/// The error for a range whose lower bound lies above its upper bound.
pub open spec fn bounds_error(node_id: Seq<char>) -> GraphErrorView {
    GraphErrorView::RoadAngle {
        message: "The min flag has a greater value than the max flag!"@,
        node_id,
    }
}

/// Filters `collection` to the segments whose bearing lies in the range.
/// The caller compares the bounds and tests the bearings: `min_above_max`
/// says whether the lower bound lies above the upper one, and `in_range`
/// whether the bearing from the first position to the second lies strictly
/// between them.
pub fn filter<F: Fn(Position, Position) -> bool>(
    collection: FeatureCollection,
    min_above_max: bool,
    in_range: F,
    node_id: &str,
) -> (out: Result<FeatureCollection, GraphError>)
    requires
        decides(in_range),
    ensures
        min_above_max ==> (out matches Err(e) && e@ == bounds_error(node_id@)),
        !min_above_max ==> (out matches Ok(found) && found@ == filtered(collection@, in_range)),
{
    if min_above_max {
        return Err(
            GraphError::RoadAngle {
                message: String::from_str("The min flag has a greater value than the max flag!"),
                node_id: String::from_str(node_id),
            },
        );
    }
    let mut features: Vec<Feature> = Vec::new();
    let mut i: usize = 0;
    while i < collection.features.len()
        invariant
            decides(in_range),
            i <= collection.features.len(),
            features_view(features@) == filtered(
                features_view(collection.features@.subrange(0, i as int)),
                in_range,
            ),
        decreases collection.features.len() - i,
    {
        let feature = &collection.features[i];
        let ghost base = features_view(features@);
        proof {
            lemma_features_view_step(collection.features@, i as int);
        }
        match &feature.geometry {
            Some(Geometry::LineString(line)) => {
                let mut j: usize = 0;
                while j + 1 < line.len()
                    invariant
                        decides(in_range),
                        j < line.len() || j == 0,
                        feature@.geometry == Some(GeometryView::LineString(line@)),
                        features_view(features@) == base + accepted_segments(
                            feature@,
                            line@,
                            in_range,
                            j as int,
                        ),
                    decreases line.len() - j,
                {
                    let a = line[j];
                    let b = line[j + 1];
                    let keep = in_range(a, b);
                    assert(in_range.requires((a, b)));
                    assert(keep == in_range.ensures((a, b), true));
                    let ghost before = features_view(features@);
                    if keep {
                        let mut ends: Vec<Position> = Vec::new();
                        ends.push(a);
                        ends.push(b);
                        assert(ends@ =~= seq![a, b]);
                        let segment = Feature {
                            id: new_id(feature.id, RAF_NUMBER),
                            geometry: Some(Geometry::LineString(ends)),
                            properties: copy_optional_properties(&feature.properties),
                        };
                        assert(segment@ == segment_feature(feature@, a, b, RAF_NUMBER));
                        proof {
                            lemma_features_view_push(features@, segment);
                        }
                        features.push(segment);
                    }
                    j += 1;
                    proof {
                        let sofar = accepted_segments(feature@, line@, in_range, j - 1);
                        let now = accepted_segments(feature@, line@, in_range, j as int);
                        assert(line@[j - 1] == a && line@[j as int] == b);
                        if keep {
                            assert(now == sofar.push(segment_feature(feature@, a, b, RAF_NUMBER)));
                            assert(features_view(features@) =~= base + now);
                        } else {
                            assert(now == sofar);
                        }
                    }
                }
                assert(j as int >= line@.len() - 1);
                assert(accepted_segments(feature@, line@, in_range, j as int)
                    == filtered_feature(feature@, in_range)) by {
                    if line@.len() == 0 {
                        assert(j == 0);
                    }
                }
            },
            _ => {
                assert(filtered_feature(feature@, in_range) =~= Seq::<FeatureView>::empty());
                assert(features_view(features@) =~= base + filtered_feature(feature@, in_range));
            },
        }
        i += 1;
    }
    assert(collection.features@.subrange(0, i as int) =~= collection.features@);
    Ok(FeatureCollection { features })
}

/// A test that accepts every segment keeps every segment: the filter
/// then gives one feature for each pair of neighbours of a line, in order.
pub proof fn law_all_accepted<F: Fn(Position, Position) -> bool>(
    f: FeatureView,
    line: Seq<Position>,
    test: F,
    n: int,
)
    requires
        forall|a: Position, b: Position| #[trigger] test.ensures((a, b), true),
        0 <= n,
    ensures
        accepted_segments(f, line, test, n).len() == n,
        forall|k: int|
            0 <= k < n ==> #[trigger] accepted_segments(f, line, test, n)[k] == segment_feature(
                f,
                line[k],
                line[k + 1],
                RAF_NUMBER,
            ),
    decreases n,
{
    if n > 0 {
        law_all_accepted(f, line, test, n - 1);
        assert(test.ensures((line[n - 1], line[n]), true));
    }
}

} // verus!
