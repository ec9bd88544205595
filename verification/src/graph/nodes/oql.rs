//! A node that holds the text of a query.

use vstd::prelude::*;
use crate::graph::Control;
use crate::graph::output::NodeOutput;
use crate::graph::output::NodeOutputView;

verus! {

#[derive(Clone, Debug, PartialEq, Eq)]
pub struct Oql {
    pub query: Control<String>,
}

impl Oql {
    /// The query of this node, as it is written.
    pub fn process(&self) -> (out: NodeOutput)
        ensures
            out@ == NodeOutputView::Query(self.query.value@),
    {
        NodeOutput::Query(self.query.value.clone())
    }
}

} // verus!
