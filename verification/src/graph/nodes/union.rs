//! A node that puts the features of two collections into one.

use vstd::prelude::*;
use crate::geojson::FeatureCollection;
use crate::geojson::append_copies;
use crate::graph::output::NodeOutput;
use crate::graph::output::NodeOutputView;

verus! {

#[derive(Clone, Copy, Debug, PartialEq, Eq, Structural)]
pub struct Union {}

impl Union {
    /// The features at the input `a`, then those at the input `b`. Nothing
    /// is left out, also where a feature stands in both.
    pub fn process(&self, a: &FeatureCollection, b: &FeatureCollection) -> (out: NodeOutput)
        ensures
            out@ == NodeOutputView::Features(a@ + b@),
            out@->Features_0.len() == a@.len() + b@.len(),
    {
        let mut features = Vec::new();
        append_copies(&mut features, &a.features);
        append_copies(&mut features, &b.features);
        let collection = FeatureCollection { features };
        assert(collection@ =~= a@ + b@);
        NodeOutput::Features(collection)
    }
}

} // verus!
