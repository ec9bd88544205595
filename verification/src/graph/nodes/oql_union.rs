//! A node that joins two queries into their union.

use vstd::prelude::*;
use vstd::string::*;
use crate::graph::output::NodeOutput;
use crate::graph::output::NodeOutputView;

verus! {

#[derive(Clone, Copy, Debug, PartialEq, Eq, Structural)]
pub struct OqlUnion {}

/// The union of the queries `a` and `b`.
pub open spec fn union_text(a: Seq<char>, b: Seq<char>) -> Seq<char> {
    "("@ + a + " "@ + b + ");"@
}

impl OqlUnion {
    /// The union of the queries at the inputs `a` and `b`.
    pub fn process(&self, a: &str, b: &str) -> (out: NodeOutput)
        ensures
            out@ == NodeOutputView::Query(union_text(a@, b@)),
    {
        let mut text = String::from_str("(");
        text.append(a);
        text.append(" ");
        text.append(b);
        text.append(");");
        NodeOutput::Query(text)
    }
}

} // verus!
