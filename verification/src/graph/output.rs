//! What a node hands to the nodes behind it.

use vstd::prelude::*;
use vstd::string::*;
use crate::geojson::FeatureCollection;
use crate::geojson::FeatureView;
use crate::graph::errors::GraphError;
use crate::graph::errors::GraphErrorView;

verus! {

/// The output of a node: features, or the text of a query.
#[derive(Debug, PartialEq)]
pub enum NodeOutput {
    Features(FeatureCollection),
    Query(String),
}

pub enum NodeOutputView {
    Features(Seq<FeatureView>),
    Query(Seq<char>),
}

impl View for NodeOutput {
    type V = NodeOutputView;

    open spec fn view(&self) -> NodeOutputView {
        match self {
            NodeOutput::Features(collection) => NodeOutputView::Features(collection@),
            NodeOutput::Query(text) => NodeOutputView::Query(text@),
        }
    }
}

/// The two kinds of output.
#[derive(Clone, Copy, Debug, PartialEq, Eq, Structural)]
pub enum OutputKind {
    Features,
    Query,
}

/// The name by which errors call an output of the kind `kind`.
pub open spec fn kind_name(kind: OutputKind) -> Seq<char> {
    match kind {
        OutputKind::Features => "geojson"@,
        OutputKind::Query => "query"@,
    }
}

/// The error for an output of the kind `got` where one of the kind
/// `expected` is asked for.
pub open spec fn wrong_input(got: OutputKind, expected: OutputKind) -> GraphErrorView {
    GraphErrorView::WrongInputType { got: kind_name(got), expected: kind_name(expected) }
}

impl OutputKind {
    /// The name by which errors call an output of this kind.
    pub fn name(self) -> (text: String)
        ensures
            text@ == kind_name(self),
    {
        match self {
            OutputKind::Features => String::from_str("geojson"),
            OutputKind::Query => String::from_str("query"),
        }
    }

    /// The error for an output of this kind where one of the kind
    /// `expected` is asked for.
    pub fn refused_as(self, expected: OutputKind) -> (e: GraphError)
        ensures
            e@ == wrong_input(self, expected),
    {
        GraphError::WrongInputType { got: self.name(), expected: expected.name() }
    }
}

impl NodeOutput {
    /// The kind of this output.
    pub open spec fn spec_kind(&self) -> OutputKind {
        match self {
            NodeOutput::Features(_) => OutputKind::Features,
            NodeOutput::Query(_) => OutputKind::Query,
        }
    }

    /// The kind of this output.
    #[verifier::when_used_as_spec(spec_kind)]
    pub fn kind(&self) -> (kind: OutputKind)
        ensures
            kind == self.spec_kind(),
    {
        match self {
            NodeOutput::Features(_) => OutputKind::Features,
            NodeOutput::Query(_) => OutputKind::Query,
        }
    }

    /// The features of this output; a query is refused.
    pub fn into_features(self) -> (out: Result<FeatureCollection, GraphError>)
        ensures
            match self {
                NodeOutput::Features(collection) => out == Ok::<FeatureCollection, GraphError>(
                    collection,
                ),
                NodeOutput::Query(_) => out matches Err(e) && e@ == wrong_input(
                    OutputKind::Query,
                    OutputKind::Features,
                ),
            },
    {
        match self {
            NodeOutput::Features(collection) => Ok(collection),
            NodeOutput::Query(_) => Err(OutputKind::Query.refused_as(OutputKind::Features)),
        }
    }

    /// The query of this output; features are refused.
    pub fn into_query(self) -> (out: Result<String, GraphError>)
        ensures
            match self {
                NodeOutput::Query(text) => out == Ok::<String, GraphError>(text),
                NodeOutput::Features(_) => out matches Err(e) && e@ == wrong_input(
                    OutputKind::Features,
                    OutputKind::Query,
                ),
            },
    {
        match self {
            NodeOutput::Query(text) => Ok(text),
            NodeOutput::Features(_) => Err(OutputKind::Features.refused_as(OutputKind::Query)),
        }
    }

    /// A copy of this output.
    pub fn duplicate(&self) -> (copy: NodeOutput)
        ensures
            copy@ == self@,
    {
        match self {
            NodeOutput::Features(collection) => NodeOutput::Features(collection.duplicate()),
            NodeOutput::Query(text) => NodeOutput::Query(text.clone()),
        }
    }
}

} // verus!
