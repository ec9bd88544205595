//! What a search hands back besides features, and how a failed search is
//! reported.

use vstd::prelude::*;
use vstd::string::*;
use crate::graph::errors::GraphError;
use crate::graph::errors::GraphErrorView;
use crate::graph::errors::graph_error_node;
use crate::graph::errors::graph_error_text;

verus! {

/// An area that a place description was resolved to.
#[derive(Clone, Debug, Default, PartialEq, Eq)]
pub struct GeocodeaArea {
    pub id: u64,
    pub ty: String,
    pub name: String,
    pub original: String,
}

pub struct GeocodeaAreaView {
    pub id: u64,
    pub ty: Seq<char>,
    pub name: Seq<char>,
    pub original: Seq<char>,
}

impl View for GeocodeaArea {
    type V = GeocodeaAreaView;

    open spec fn view(&self) -> GeocodeaAreaView {
        GeocodeaAreaView { id: self.id, ty: self.ty@, name: self.name@, original: self.original@ }
    }
}

/// The areas `s`, each by its view.
pub open spec fn areas_view(s: Seq<GeocodeaArea>) -> Seq<GeocodeaAreaView> {
    s.map_values(|a: GeocodeaArea| a@)
}

impl GeocodeaArea {
    /// A copy of this area.
    pub fn duplicate(&self) -> (copy: GeocodeaArea)
        ensures
            copy@ == self@,
    {
        GeocodeaArea {
            id: self.id,
            ty: self.ty.clone(),
            name: self.name.clone(),
            original: self.original.clone(),
        }
    }
}

/// Appends a copy of each area of `from` to `to`, in order.
pub fn append_areas(to: &mut Vec<GeocodeaArea>, from: &Vec<GeocodeaArea>)
    ensures
        areas_view(final(to)@) == areas_view(old(to)@) + areas_view(from@),
{
    let mut i: usize = 0;
    while i < from.len()
        invariant
            i <= from.len(),
            areas_view(to@) == areas_view(old(to)@) + areas_view(from@.subrange(0, i as int)),
        decreases from.len() - i,
    {
        let ghost before = to@;
        let a = from[i].duplicate();
        to.push(a);
        i += 1;
        assert(areas_view(to@) =~= areas_view(old(to)@) + areas_view(
            from@.subrange(0, i as int),
        )) by {
            assert(to@ == before.push(a));
            assert(areas_view(before.push(a)) =~= areas_view(before).push(a@));
            assert(from@.subrange(0, i as int) =~= from@.subrange(0, i - 1).push(from@[i - 1]));
            assert(areas_view(from@.subrange(0, i - 1).push(from@[i - 1])) =~= areas_view(
                from@.subrange(0, i - 1),
            ).push(from@[i - 1]@));
        }
    }
    assert(from@.subrange(0, i as int) =~= from@);
}

/// The bounding box of a request, as query text needs it: the latitude and
/// longitude of the south-west and of the north-east corner, and of the
/// point midway between them, each as a decimal numeral.
#[derive(Clone, Debug, PartialEq, Eq)]
pub struct Bbox {
    pub sw_lat: String,
    pub sw_lng: String,
    pub ne_lat: String,
    pub ne_lng: String,
    pub center_lat: String,
    pub center_lng: String,
}

pub struct BboxView {
    pub sw_lat: Seq<char>,
    pub sw_lng: Seq<char>,
    pub ne_lat: Seq<char>,
    pub ne_lng: Seq<char>,
    pub center_lat: Seq<char>,
    pub center_lng: Seq<char>,
}

impl View for Bbox {
    type V = BboxView;

    open spec fn view(&self) -> BboxView {
        BboxView {
            sw_lat: self.sw_lat@,
            sw_lng: self.sw_lng@,
            ne_lat: self.ne_lat@,
            ne_lng: self.ne_lng@,
            center_lat: self.center_lat@,
            center_lng: self.center_lng@,
        }
    }
}

impl Default for Bbox {
    /// The box whose corners both lie at zero.
    fn default() -> (bbox: Bbox)
        ensures
            bbox@ == (BboxView {
                sw_lat: "0"@,
                sw_lng: "0"@,
                ne_lat: "0"@,
                ne_lng: "0"@,
                center_lat: "0"@,
                center_lng: "0"@,
            }),
    {
        Bbox {
            sw_lat: String::from_str("0"),
            sw_lng: String::from_str("0"),
            ne_lat: String::from_str("0"),
            ne_lng: String::from_str("0"),
            center_lat: String::from_str("0"),
            center_lng: String::from_str("0"),
        }
    }
}

/// Why a search failed.
#[derive(Clone, Debug, PartialEq, Eq)]
pub enum SearchError {
    /// A service could not be reached; the text describes the failure.
    Network(String),
    Graph(GraphError),
}

pub enum SearchErrorView {
    Network(Seq<char>),
    Graph(GraphErrorView),
}

impl View for SearchError {
    type V = SearchErrorView;

    open spec fn view(&self) -> SearchErrorView {
        match self {
            SearchError::Network(m) => SearchErrorView::Network(m@),
            SearchError::Graph(e) => SearchErrorView::Graph(e@),
        }
    }
}

/// How the text of a failure is to be shown.
#[derive(Clone, Copy, Debug, PartialEq, Eq, Structural)]
pub enum ErrorFormat {
    /// As it is.
    Text,
    /// As the answer of the query service to a query that it refused.
    Xml,
}

/// What a failed search is reported with.
#[derive(Clone, Debug, PartialEq, Eq)]
pub struct ErrorReport {
    /// The text that describes the error.
    pub error: String,
    pub format: ErrorFormat,
    /// The query that was refused.
    pub query: Option<String>,
    /// The answer of the service that refused it.
    pub message: Option<String>,
    /// The node that the error is about.
    pub node_id: Option<String>,
}

pub struct ErrorReportView {
    pub error: Seq<char>,
    pub format: ErrorFormat,
    pub query: Option<Seq<char>>,
    pub message: Option<Seq<char>>,
    pub node_id: Option<Seq<char>>,
}

/// The view of a text that may be missing.
pub open spec fn optional_text(t: Option<String>) -> Option<Seq<char>> {
    match t {
        Some(s) => Some(s@),
        None => None,
    }
}

impl View for ErrorReport {
    type V = ErrorReportView;

    open spec fn view(&self) -> ErrorReportView {
        ErrorReportView {
            error: self.error@,
            format: self.format,
            query: optional_text(self.query),
            message: optional_text(self.message),
            node_id: optional_text(self.node_id),
        }
    }
}

/// The text that describes the error `e`.
pub open spec fn search_error_text(e: SearchErrorView) -> Seq<char> {
    match e {
        SearchErrorView::Network(_) => "network error"@,
        SearchErrorView::Graph(e) => graph_error_text(e),
    }
}

/// The node that the error `e` is about, where it names one.
pub open spec fn search_error_node(e: SearchErrorView) -> Option<Seq<char>> {
    match e {
        SearchErrorView::Graph(e) => graph_error_node(e),
        SearchErrorView::Network(_) => None,
    }
}

/// The report of the error `e`: a refused query is reported with the query
/// and the answer of the service, to be shown as such; any other error by
/// its text alone.
pub open spec fn report_of(e: SearchErrorView) -> ErrorReportView {
    match e {
        SearchErrorView::Graph(GraphErrorView::OqlSyntax { node_id, error, query }) => ErrorReportView {
            error: search_error_text(e),
            format: ErrorFormat::Xml,
            query: Some(query),
            message: Some(error),
            node_id: Some(node_id),
        },
        _ => ErrorReportView {
            error: search_error_text(e),
            format: ErrorFormat::Text,
            query: None,
            message: None,
            node_id: search_error_node(e),
        },
    }
}

impl SearchError {
    /// The text that describes this error.
    pub fn message(&self) -> (text: String)
        ensures
            text@ == search_error_text(self@),
    {
        match self {
            SearchError::Network(_) => String::from_str("network error"),
            SearchError::Graph(e) => e.message(),
        }
    }

    /// The node that this error is about, where it names one.
    pub fn node_id(&self) -> (id: Option<&String>)
        ensures
            match id {
                Some(s) => search_error_node(self@) == Some(s@),
                None => search_error_node(self@) is None,
            },
    {
        match self {
            SearchError::Graph(e) => e.node_id(),
            SearchError::Network(_) => None,
        }
    }

    /// What this error is reported with.
    pub fn report(&self) -> (report: ErrorReport)
        ensures
            report@ == report_of(self@),
    {
        match self {
            SearchError::Graph(GraphError::OqlSyntax { node_id, error, query }) => ErrorReport {
                error: self.message(),
                format: ErrorFormat::Xml,
                query: Some(query.clone()),
                message: Some(error.clone()),
                node_id: Some(node_id.clone()),
            },
            _ => {
                let node_id = match self.node_id() {
                    Some(id) => Some(id.clone()),
                    None => None,
                };
                ErrorReport {
                    error: self.message(),
                    format: ErrorFormat::Text,
                    query: None,
                    message: None,
                    node_id,
                }
            },
        }
    }
}

} // verus!
