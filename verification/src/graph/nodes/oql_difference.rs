//! A node that joins two queries into their difference.

use vstd::prelude::*;
use vstd::string::*;
use crate::graph::output::NodeOutput;
use crate::graph::output::NodeOutputView;

verus! {

#[derive(Clone, Copy, Debug, PartialEq, Eq, Structural)]
pub struct OqlDifference {}

/// The query for what `a` finds and `b` does not.
pub open spec fn difference_text(a: Seq<char>, b: Seq<char>) -> Seq<char> {
    "("@ + a + " - "@ + b + ");"@
}

impl OqlDifference {
    /// The difference of the queries at the inputs `a` and `b`.
    pub fn process(&self, a: &str, b: &str) -> (out: NodeOutput)
        ensures
            out@ == NodeOutputView::Query(difference_text(a@, b@)),
    {
        let mut text = String::from_str("(");
        text.append(a);
        text.append(" - ");
        text.append(b);
        text.append(");");
        NodeOutput::Query(text)
    }
}

} // verus!
