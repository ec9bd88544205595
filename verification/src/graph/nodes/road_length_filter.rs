//! The road length filter: each line is cut into runs of positions that
//! keep to one bearing, and the runs whose length lies in a range are kept.

use vstd::prelude::*;
use vstd::string::*;
use crate::geojson::Feature;
use crate::geojson::FeatureCollection;
use crate::geojson::FeatureView;
use crate::geojson::Geometry;
use crate::geojson::GeometryView;
use crate::geojson::Position;
use crate::geojson::copy_optional_properties;
use crate::geojson::copy_positions;
use crate::geojson::features_view;
use crate::geojson::lemma_features_view_push;
use crate::geojson::lemma_features_view_step;
use crate::graph::Control;
use crate::graph::errors::GraphError;
use crate::graph::errors::GraphErrorView;
use crate::graph::nodes::road_angle_filter::decides;
use crate::graph::utils::RLF_NUMBER;
use crate::graph::utils::new_id;
use crate::graph::utils::shifted_id;

verus! {

/// The settings of a road length filter: the bounds of the length, in
/// metres, and the tolerance of the bearing, in degrees, each as the bit
/// pattern of a binary64 number.
#[derive(Clone, Debug, PartialEq, Eq)]
pub struct RoadLengthFilter {
    pub min: Control<u64>,
    pub max: Control<u64>,
    pub tolerance: Control<u64>,
}

/// A test on three positions that can be asked of any three and has one
/// answer for each.
pub open spec fn decides_three<F: Fn(Position, Position, Position) -> bool>(test: F) -> bool {
    forall|a: Position, b: Position, c: Position|
        #![trigger test.requires((a, b, c))]
        test.requires((a, b, c)) && !(test.ensures((a, b, c), true) && test.ensures(
            (a, b, c),
            false,
        ))
}

/// How many positions of `line`, from index `from` on and without a gap,
/// `aligned` accepts for the run that starts at `start`.
pub open spec fn aligned_run<F: Fn(Position, Position, Position) -> bool>(
    line: Seq<Position>,
    aligned: F,
    start: int,
    from: int,
) -> nat
    decreases line.len() - from,
{
    if 0 <= from < line.len() && aligned.ensures((line[start], line[start + 1], line[from]), true) {
        1 + aligned_run(line, aligned, start, from + 1)
    } else {
        0
    }
}

/// A run ends within the line.
pub proof fn lemma_aligned_run_bound<F: Fn(Position, Position, Position) -> bool>(
    line: Seq<Position>,
    aligned: F,
    start: int,
    from: int,
)
    requires
        0 <= from <= line.len(),
    ensures
        from + aligned_run(line, aligned, start, from) <= line.len(),
    decreases line.len() - from,
{
    if from < line.len() && aligned.ensures((line[start], line[start + 1], line[from]), true) {
        lemma_aligned_run_bound(line, aligned, start, from + 1);
    }
}

/// The index behind the run that starts at `start`: a run holds its first
/// two positions and every following one that `aligned` accepts, up to the
/// first that it does not.
pub open spec fn run_end<F: Fn(Position, Position, Position) -> bool>(
    line: Seq<Position>,
    aligned: F,
    start: int,
) -> int {
    start + 2 + aligned_run(line, aligned, start, start + 2)
}

/// The feature for the run `run` of the feature `f`: the run as a line, the
/// properties of `f`, and the identifier of `f` shifted.
pub open spec fn run_feature(f: FeatureView, run: Seq<Position>) -> FeatureView {
    FeatureView {
        id: shifted_id(f.id, RLF_NUMBER),
        geometry: Some(GeometryView::LineString(run)),
        properties: f.properties,
    }
}

/// The features for the runs of `line` from index `start` on that
/// `in_range` accepts by their first and last position, in order. A single
/// position left over at the end is in no run.
pub open spec fn accepted_runs<
    F: Fn(Position, Position, Position) -> bool,
    G: Fn(Position, Position) -> bool,
>(f: FeatureView, line: Seq<Position>, aligned: F, in_range: G, start: int) -> Seq<FeatureView>
    decreases line.len() - start,
{
    if start < 0 || start + 2 > line.len() {
        Seq::empty()
    } else {
        let end = run_end(line, aligned, start);
        proof {
            lemma_aligned_run_bound(line, aligned, start, start + 2);
        }
        let rest = accepted_runs(f, line, aligned, in_range, end);
        if in_range.ensures((line[start], line[end - 1]), true) {
            seq![run_feature(f, line.subrange(start, end))] + rest
        } else {
            rest
        }
    }
}

/// What the filter makes of one feature: the accepted runs of a line,
/// nothing of anything else.
pub open spec fn filtered_feature<
    F: Fn(Position, Position, Position) -> bool,
    G: Fn(Position, Position) -> bool,
>(f: FeatureView, aligned: F, in_range: G) -> Seq<FeatureView> {
    match f.geometry {
        Some(GeometryView::LineString(line)) => accepted_runs(f, line, aligned, in_range, 0),
        _ => Seq::empty(),
    }
}

/// What the filter makes of `features`: what it makes of each, in order.
pub open spec fn filtered<
    F: Fn(Position, Position, Position) -> bool,
    G: Fn(Position, Position) -> bool,
>(features: Seq<FeatureView>, aligned: F, in_range: G) -> Seq<FeatureView>
    decreases features.len(),
{
    if features.len() == 0 {
        Seq::empty()
    } else {
        filtered(features.drop_last(), aligned, in_range) + filtered_feature(
            features.last(),
            aligned,
            in_range,
        )
    }
}

/// The error for one of the two faults of a range: a lower bound above the
/// upper one, which comes first, or a negative bound.
pub open spec fn bounds_error(min_above_max: bool, node_id: Seq<char>) -> GraphErrorView {
    GraphErrorView::RoadLength {
        message: if min_above_max {
            "The min flag has a greater value than the max flag"@
        } else {
            "Min and Max have to be positive values"@
        },
        node_id,
    }
}

/// Filters `collection` to the runs whose length lies in the range. The
/// caller compares the bounds and measures: `min_above_max` says whether
/// the lower bound lies above the upper one, `negative_bound` whether one of
/// them is negative, `aligned` whether the bearing from the first position
/// to the third keeps within the tolerance of the bearing from the first to
/// the second, and `in_range` whether the distance between two positions
/// lies strictly between the bounds.
pub fn filter<F: Fn(Position, Position, Position) -> bool, G: Fn(Position, Position) -> bool>(
    collection: FeatureCollection,
    min_above_max: bool,
    negative_bound: bool,
    aligned: F,
    in_range: G,
    node_id: &str,
) -> (out: Result<FeatureCollection, GraphError>)
    requires
        decides_three(aligned),
        decides(in_range),
    ensures
        min_above_max || negative_bound ==> (out matches Err(e) && e@ == bounds_error(
            min_above_max,
            node_id@,
        )),
        !min_above_max && !negative_bound ==> (out matches Ok(found) && found@ == filtered(
            collection@,
            aligned,
            in_range,
        )),
{
    if min_above_max {
        return Err(
            GraphError::RoadLength {
                message: String::from_str("The min flag has a greater value than the max flag"),
                node_id: String::from_str(node_id),
            },
        );
    }
    if negative_bound {
        return Err(
            GraphError::RoadLength {
                message: String::from_str("Min and Max have to be positive values"),
                node_id: String::from_str(node_id),
            },
        );
    }
    let mut features: Vec<Feature> = Vec::new();
    let mut i: usize = 0;
    while i < collection.features.len()
        invariant
            decides_three(aligned),
            decides(in_range),
            i <= collection.features.len(),
            features_view(features@) == filtered(
                features_view(collection.features@.subrange(0, i as int)),
                aligned,
                in_range,
            ),
        decreases collection.features.len() - i,
    {
        let feature = &collection.features[i];
        let ghost base = features_view(features@);
        proof {
            lemma_features_view_step(collection.features@, i as int);
        }
        match &feature.geometry {
            Some(Geometry::LineString(line)) => {
                let ghost all = accepted_runs(feature@, line@, aligned, in_range, 0);
                let mut start: usize = 0;
                assert(base + all =~= features_view(features@) + all);
                while line.len() >= 2 && start <= line.len() - 2
                    invariant
                        decides_three(aligned),
                        decides(in_range),
                        start <= line.len(),
                        feature@.geometry == Some(GeometryView::LineString(line@)),
                        all == accepted_runs(feature@, line@, aligned, in_range, 0),
                        base + all == features_view(features@) + accepted_runs(
                            feature@,
                            line@,
                            aligned,
                            in_range,
                            start as int,
                        ),
                    decreases line.len() - start,
                {
                    let first = line[start];
                    let second = line[start + 1];
                    let mut end: usize = start + 2;
                    while end < line.len()
                        invariant_except_break
                            aligned_run(line@, aligned, start as int, start + 2) == (end - start
                                - 2) + aligned_run(line@, aligned, start as int, end as int),
                        invariant
                            decides_three(aligned),
                            start + 2 <= end <= line.len(),
                            first == line@[start as int],
                            second == line@[start + 1],
                        ensures
                            end as int == run_end(line@, aligned, start as int),
                        decreases line.len() - end,
                    {
                        let follows = aligned(first, second, line[end]);
                        assert(aligned.requires((first, second, line@[end as int])));
                        assert(follows == aligned.ensures(
                            (first, second, line@[end as int]),
                            true,
                        ));
                        if !follows {
                            break ;
                        }
                        end += 1;
                    }
                    let last = line[end - 1];
                    let keep = in_range(first, last);
                    assert(in_range.requires((first, last)));
                    assert(keep == in_range.ensures((first, last), true));
                    if keep {
                        let run = copy_positions(line, start, end);
                        let found = Feature {
                            id: new_id(feature.id, RLF_NUMBER),
                            geometry: Some(Geometry::LineString(run)),
                            properties: copy_optional_properties(&feature.properties),
                        };
                        assert(found@ == run_feature(
                            feature@,
                            line@.subrange(start as int, end as int),
                        ));
                        proof {
                            lemma_features_view_push(features@, found);
                            let rest = accepted_runs(
                                feature@,
                                line@,
                                aligned,
                                in_range,
                                end as int,
                            );
                            assert(features_view(features@).push(found@) + rest =~= features_view(
                                features@,
                            ) + (seq![found@] + rest));
                        }
                        features.push(found);
                    }
                    start = end;
                }
                assert(accepted_runs(feature@, line@, aligned, in_range, start as int)
                    =~= Seq::<FeatureView>::empty());
                assert(features_view(features@) =~= base + filtered_feature(
                    feature@,
                    aligned,
                    in_range,
                ));
            },
            _ => {
                assert(filtered_feature(feature@, aligned, in_range) =~= Seq::<
                    FeatureView,
                >::empty());
                assert(features_view(features@) =~= base + filtered_feature(
                    feature@,
                    aligned,
                    in_range,
                ));
            },
        }
        i += 1;
    }
    assert(collection.features@.subrange(0, i as int) =~= collection.features@);
    Ok(FeatureCollection { features })
}

/// The features for all runs of `line` from index `start` on, in order.
pub open spec fn all_runs<F: Fn(Position, Position, Position) -> bool>(
    f: FeatureView,
    line: Seq<Position>,
    aligned: F,
    start: int,
) -> Seq<FeatureView>
    decreases line.len() - start,
{
    if start < 0 || start + 2 > line.len() {
        Seq::empty()
    } else {
        let end = run_end(line, aligned, start);
        proof {
            lemma_aligned_run_bound(line, aligned, start, start + 2);
        }
        seq![run_feature(f, line.subrange(start, end))] + all_runs(f, line, aligned, end)
    }
}

/// A test that accepts every length keeps every run.
pub proof fn law_all_in_range<
    F: Fn(Position, Position, Position) -> bool,
    G: Fn(Position, Position) -> bool,
>(f: FeatureView, line: Seq<Position>, aligned: F, in_range: G, start: int)
    requires
        forall|a: Position, b: Position| #[trigger] in_range.ensures((a, b), true),
    ensures
        accepted_runs(f, line, aligned, in_range, start) == all_runs(f, line, aligned, start),
    decreases line.len() - start,
{
    if !(start < 0 || start + 2 > line.len()) {
        let end = run_end(line, aligned, start);
        lemma_aligned_run_bound(line, aligned, start, start + 2);
        law_all_in_range(f, line, aligned, in_range, end);
        assert(in_range.ensures((line[start], line[end - 1]), true));
    }
}

/// The runs of a line take its positions in order and leave none out but a
/// single position at the end: a run starts where the one before it ends.
pub proof fn law_runs_are_consecutive<F: Fn(Position, Position, Position) -> bool>(
    line: Seq<Position>,
    aligned: F,
    start: int,
)
    requires
        0 <= start,
        start + 2 <= line.len(),
    ensures
        start + 2 <= run_end(line, aligned, start) <= line.len(),
        forall|k: int|
            start + 2 <= k < run_end(line, aligned, start) ==> aligned.ensures(
                (line[start], line[start + 1], #[trigger] line[k]),
                true,
            ),
        run_end(line, aligned, start) < line.len() ==> !aligned.ensures(
            (line[start], line[start + 1], line[run_end(line, aligned, start)]),
            true,
        ),
{
    lemma_aligned_run_bound(line, aligned, start, start + 2);
    lemma_aligned_run_holds(line, aligned, start, start + 2);
}

/// Every position that a run counts from `from` on is accepted, and the
/// first position behind them is not.
pub proof fn lemma_aligned_run_holds<F: Fn(Position, Position, Position) -> bool>(
    line: Seq<Position>,
    aligned: F,
    start: int,
    from: int,
)
    requires
        0 <= from <= line.len(),
    ensures
        forall|k: int|
            from <= k < from + aligned_run(line, aligned, start, from) ==> aligned.ensures(
                (line[start], line[start + 1], #[trigger] line[k]),
                true,
            ),
        from + aligned_run(line, aligned, start, from) < line.len() ==> !aligned.ensures(
            (line[start], line[start + 1], line[from + aligned_run(line, aligned, start, from)]),
            true,
        ),
    decreases line.len() - from,
{
    if from < line.len() && aligned.ensures((line[start], line[start + 1], line[from]), true) {
        lemma_aligned_run_holds(line, aligned, start, from + 1);
    }
}

} // verus!
