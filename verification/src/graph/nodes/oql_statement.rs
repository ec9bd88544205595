//! A node that writes one statement that selects elements by a tag.

use vstd::prelude::*;
use vstd::string::*;
use crate::graph::Control;
use crate::graph::output::NodeOutput;
use crate::graph::output::NodeOutputView;

verus! {

#[derive(Clone, Debug, PartialEq, Eq)]
pub struct OqlStatement {
    pub nodes: Control<bool>,
    pub ways: Control<bool>,
    pub relations: Control<bool>,
    pub key: Control<String>,
    pub value: Control<String>,
}

/// The word for the types of element that a statement selects. Where none
/// is asked for, all are selected.
pub open spec fn element_prefix(nodes: bool, ways: bool, relations: bool) -> Seq<char> {
    if nodes && ways && relations {
        "nwr"@
    } else if nodes && ways {
        "nw"@
    } else if nodes && relations {
        "nr"@
    } else if ways && relations {
        "wr"@
    } else if nodes {
        "node"@
    } else if ways {
        "way"@
    } else if relations {
        "relation"@
    } else {
        "nwr"@
    }
}

/// The statement for the tag `key`, with `value` where one is given, over
/// the bounding box, which is left as a macro.
pub open spec fn statement_text(
    nodes: bool,
    ways: bool,
    relations: bool,
    key: Seq<char>,
    value: Seq<char>,
) -> Seq<char> {
    if value.len() == 0 {
        element_prefix(nodes, ways, relations) + "["@ + key + "]({{bbox}});"@
    } else {
        element_prefix(nodes, ways, relations) + "["@ + key + "="@ + value + "]({{bbox}});"@
    }
}

impl OqlStatement {
    /// The statement of this node.
    pub fn process(&self) -> (out: NodeOutput)
        ensures
            out@ == NodeOutputView::Query(
                statement_text(
                    self.nodes.value,
                    self.ways.value,
                    self.relations.value,
                    self.key.value@,
                    self.value.value@,
                ),
            ),
    {
        let prefix = match (self.nodes.value, self.ways.value, self.relations.value) {
            (true, true, true) => "nwr",
            (true, true, false) => "nw",
            (true, false, true) => "nr",
            (false, true, true) => "wr",
            (true, false, false) => "node",
            (false, true, false) => "way",
            (false, false, true) => "relation",
            (false, false, false) => "nwr",
        };
        let mut text = String::from_str(prefix);
        text.append("[");
        text.append(self.key.value.as_str());
        if self.value.value.as_str().is_empty() {
            text.append("]({{bbox}});");
        } else {
            text.append("=");
            text.append(self.value.value.as_str());
            text.append("]({{bbox}});");
        }
        NodeOutput::Query(text)
    }
}

} // verus!
