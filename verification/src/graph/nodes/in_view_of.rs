//! A reserved kind of node.

use vstd::prelude::*;
use vstd::string::*;
use crate::graph::errors::GraphError;
use crate::graph::errors::GraphErrorView;

verus! {

/// A node with the inputs `in` and `aux`, both features, that is reserved
/// for telling which features can be seen from which. It computes nothing
/// yet.
#[derive(Clone, Copy, Debug, PartialEq, Eq, Structural)]
pub struct InViewOf {}

impl InViewOf {
    /// The error of a node of this kind once its inputs are there.
    pub fn process(&self, node_id: &str) -> (e: GraphError)
        ensures
            e@ == (GraphErrorView::NotImplemented { node_id: node_id@ }),
    {
        GraphError::NotImplemented { node_id: String::from_str(node_id) }
    }
}

} // verus!
