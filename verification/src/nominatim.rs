//! Resolving place descriptions to areas: the interface of a geocoder and
//! the reading of its reply.

use vstd::prelude::*;
use vstd::string::*;
use crate::search::GeocodeaArea;
use crate::search::GeocodeaAreaView;
use crate::text::push_decimal;
use crate::text::text_is;
use crate::text::decimal;

verus! {

/// What a geocoder found: the area identifiers to query by, and the area.
#[derive(Clone, Debug, PartialEq, Eq)]
pub struct NominatimOuput {
    pub ids: Vec<u64>,
    pub area: GeocodeaArea,
}

pub struct NominatimOuputView {
    pub ids: Seq<u64>,
    pub area: GeocodeaAreaView,
}

impl View for NominatimOuput {
    type V = NominatimOuputView;

    open spec fn view(&self) -> NominatimOuputView {
        NominatimOuputView { ids: self.ids@, area: self.area@ }
    }
}

/// Why a place description could not be resolved.
#[derive(Clone, Debug, PartialEq, Eq)]
pub enum NominatimError {
    /// The geocoder answered, but not with a usable result.
    Nominatim(String),
    /// The geocoder could not be reached; the text describes the failure.
    Network(String),
}

pub enum NominatimErrorView {
    Nominatim(Seq<char>),
    Network(Seq<char>),
}

impl View for NominatimError {
    type V = NominatimErrorView;

    open spec fn view(&self) -> NominatimErrorView {
        match self {
            NominatimError::Nominatim(m) => NominatimErrorView::Nominatim(m@),
            NominatimError::Network(m) => NominatimErrorView::Network(m@),
        }
    }
}

/// The text that describes the error `e`.
pub open spec fn nominatim_error_text(e: NominatimErrorView) -> Seq<char> {
    match e {
        NominatimErrorView::Nominatim(m) => "Nominatim: "@ + m,
        NominatimErrorView::Network(_) => "network error"@,
    }
}

impl NominatimError {
    /// The text that describes this error.
    pub fn message(&self) -> (text: String)
        ensures
            text@ == nominatim_error_text(self@),
    {
        match self {
            NominatimError::Nominatim(m) => {
                let mut text = String::from_str("Nominatim: ");
                text.append(m.as_str());
                text
            },
            NominatimError::Network(_) => String::from_str("network error"),
        }
    }

    /// A copy of this error.
    pub fn duplicate(&self) -> (copy: NominatimError)
        ensures
            copy@ == self@,
    {
        match self {
            NominatimError::Nominatim(m) => NominatimError::Nominatim(m.clone()),
            NominatimError::Network(m) => NominatimError::Network(m.clone()),
        }
    }
}

/// A geocoder: resolves a place description, with a language hint, to an
/// area. Nothing is promised of an answer; callers state what they do with
/// whatever comes back.
pub trait Nominatim {
    fn search(&self, search: &str, lang: &str) -> (found: Result<NominatimOuput, NominatimError>);
}

/// The address to ask for the places that match `search`, with names in
/// the language `lang`.
pub open spec fn search_url_text(search: Seq<char>, lang: Seq<char>) -> Seq<char> {
    "https://nominatim.openstreetmap.org/search?format=jsonv2&accept-language="@ + lang + "&q="@
        + search
}

/// The address to ask for the places that match `search`, with names in
/// the language `lang`.
pub fn search_url(search: &str, lang: &str) -> (url: String)
    ensures
        url@ == search_url_text(search@, lang@),
{
    let mut url = String::from_str(
        "https://nominatim.openstreetmap.org/search?format=jsonv2&accept-language=",
    );
    url.append(lang);
    url.append("&q=");
    url.append(search);
    url
}

/// How the library names itself to the geocoder.
pub const USER_AGENT: &'static str = "Underpass, underpass.versary.town, annie@versary.town";

pub const WAY_AREA_OFFSET: u64 = 2400000000;

pub const RELATION_AREA_OFFSET: u64 = 3600000000;

/// The identifiers to query an area by, given the element's own identifier
/// and type: a relation's is shifted by 3 600 000 000; a way gives its
/// identifier shifted by 2 400 000 000 and then the identifier itself; any
/// other element gives its identifier.
pub open spec fn area_ids(id: u64, ty: Seq<char>) -> Seq<u64> {
    if ty == "way"@ {
        seq![(id + WAY_AREA_OFFSET) as u64, id]
    } else if ty == "relation"@ {
        seq![(id + RELATION_AREA_OFFSET) as u64]
    } else {
        seq![id]
    }
}

/// Whether the shifted identifier of an element of type `ty` fits.
pub open spec fn area_ids_fit(id: u64, ty: Seq<char>) -> bool {
    &&& ty == "way"@ ==> id + WAY_AREA_OFFSET <= u64::MAX
    &&& ty == "relation"@ ==> id + RELATION_AREA_OFFSET <= u64::MAX
}

/// How a field of the first result was found in a geocoder's reply.
#[derive(Clone, Debug, PartialEq, Eq)]
pub enum ReplyField<T> {
    /// The result has no such field.
    Missing,
    /// The field holds a value of another type.
    Mistyped,
    /// The field's value.
    Found(T),
}

/// The identifier field of the first result.
#[derive(Clone, Debug, PartialEq, Eq)]
pub enum ReplyId {
    Missing,
    /// The field is no number.
    NotNumber,
    /// The field is a number, but no unsigned integer of 64 bits.
    NotUnsigned,
    Found(u64),
}

/// What the library reads of a geocoder's reply.
#[derive(Clone, Debug, PartialEq, Eq)]
pub enum NominatimReply {
    /// The reply is no array.
    NotArray,
    /// The reply is an array that is empty or whose first element is no
    /// object.
    NoResult,
    /// The fields of the first element.
    First { osm_id: ReplyId, osm_type: ReplyField<String>, display_name: ReplyField<String> },
}

/// What `reply` to the search for `search` comes to: the fields are read in
/// the order identifier, type, name, and the first that is missing or
/// mistyped decides the error.
pub open spec fn reply_outcome(reply: NominatimReply, search: Seq<char>) -> Result<
    NominatimOuputView,
    NominatimErrorView,
> {
    match reply {
        NominatimReply::NotArray => Err(
            NominatimErrorView::Nominatim("response was not an array"@),
        ),
        NominatimReply::NoResult => Err(
            NominatimErrorView::Nominatim("no results found for "@ + search),
        ),
        NominatimReply::First { osm_id, osm_type, display_name } => match osm_id {
            ReplyId::Missing => Err(
                NominatimErrorView::Nominatim("nominatim response did not contain osm_id"@),
            ),
            ReplyId::NotNumber => Err(NominatimErrorView::Nominatim("osm_id was not a number"@)),
            ReplyId::NotUnsigned => Err(NominatimErrorView::Nominatim("osm_id was not a u64"@)),
            ReplyId::Found(id) => match osm_type {
                ReplyField::Missing => Err(
                    NominatimErrorView::Nominatim("nominatim response did not contain osm_type"@),
                ),
                ReplyField::Mistyped => Err(
                    NominatimErrorView::Nominatim("osm_type was not a string"@),
                ),
                ReplyField::Found(ty) => match display_name {
                    ReplyField::Missing => Err(
                        NominatimErrorView::Nominatim(
                            "nominatim response did not contain display_name"@,
                        ),
                    ),
                    ReplyField::Mistyped => Err(
                        NominatimErrorView::Nominatim("display_name was not a string"@),
                    ),
                    ReplyField::Found(name) => Ok(
                        NominatimOuputView {
                            ids: area_ids(id, ty@),
                            area: GeocodeaAreaView {
                                id,
                                ty: ty@,
                                name: name@,
                                original: search,
                            },
                        },
                    ),
                },
            },
        },
    }
}

/// Whether the identifiers that `reply` gives fit in 64 bits.
pub open spec fn reply_fits(reply: NominatimReply) -> bool {
    match reply {
        NominatimReply::First {
            osm_id: ReplyId::Found(id),
            osm_type: ReplyField::Found(ty),
            display_name: ReplyField::Found(_),
        } => area_ids_fit(id, ty@),
        _ => true,
    }
}

fn failed(message: &str) -> (r: Result<NominatimOuput, NominatimError>)
    ensures
        r matches Err(e) && e@ == NominatimErrorView::Nominatim(message@),
{
    Err(NominatimError::Nominatim(String::from_str(message)))
}

impl NominatimReply {
    /// Whether the identifiers that this reply gives fit in 64 bits.
    pub fn fits(&self) -> (fits: bool)
        ensures
            fits == reply_fits(*self),
    {
        proof {
            reveal_strlit("way");
            reveal_strlit("relation");
        }
        match self {
            NominatimReply::First {
                osm_id: ReplyId::Found(id),
                osm_type: ReplyField::Found(ty),
                display_name: ReplyField::Found(_),
            } => {
                assert("way"@.len() == 3);
                assert("relation"@.len() == 8);
                if text_is(ty.as_str(), "way") {
                    assert(ty@ != "relation"@);
                    *id <= u64::MAX - WAY_AREA_OFFSET
                } else if text_is(ty.as_str(), "relation") {
                    *id <= u64::MAX - RELATION_AREA_OFFSET
                } else {
                    true
                }
            },
            _ => true,
        }
    }
}

/// Reads the reply to the search for `search`.
pub fn read_reply(reply: NominatimReply, search: &str) -> (found: Result<
    NominatimOuput,
    NominatimError,
>)
    requires
        reply_fits(reply),
    ensures
        match found {
            Ok(out) => reply_outcome(reply, search@) == Ok::<
                NominatimOuputView,
                NominatimErrorView,
            >(out@),
            Err(e) => reply_outcome(reply, search@) == Err::<
                NominatimOuputView,
                NominatimErrorView,
            >(e@),
        },
{
    match reply {
        NominatimReply::NotArray => failed("response was not an array"),
        NominatimReply::NoResult => {
            let mut message = String::from_str("no results found for ");
            message.append(search);
            Err(NominatimError::Nominatim(message))
        },
        NominatimReply::First { osm_id, osm_type, display_name } => {
            let id = match osm_id {
                ReplyId::Missing => {
                    return failed("nominatim response did not contain osm_id");
                },
                ReplyId::NotNumber => {
                    return failed("osm_id was not a number");
                },
                ReplyId::NotUnsigned => {
                    return failed("osm_id was not a u64");
                },
                ReplyId::Found(id) => id,
            };
            let ty = match osm_type {
                ReplyField::Missing => {
                    return failed("nominatim response did not contain osm_type");
                },
                ReplyField::Mistyped => {
                    return failed("osm_type was not a string");
                },
                ReplyField::Found(ty) => ty,
            };
            let name = match display_name {
                ReplyField::Missing => {
                    return failed("nominatim response did not contain display_name");
                },
                ReplyField::Mistyped => {
                    return failed("display_name was not a string");
                },
                ReplyField::Found(name) => name,
            };
            let mut ids: Vec<u64> = Vec::new();
            if text_is(ty.as_str(), "way") {
                ids.push(id + WAY_AREA_OFFSET);
                ids.push(id);
            } else if text_is(ty.as_str(), "relation") {
                ids.push(id + RELATION_AREA_OFFSET);
            } else {
                ids.push(id);
            }
            assert(ids@ =~= area_ids(id, ty@));
            Ok(
                NominatimOuput {
                    ids,
                    area: GeocodeaArea { id, ty, name, original: String::from_str(search) },
                },
            )
        },
    }
}

/// The identifiers `ids` in decimal, separated by commas.
pub open spec fn joined_ids(ids: Seq<u64>) -> Seq<char>
    decreases ids.len(),
{
    if ids.len() == 0 {
        Seq::empty()
    } else if ids.len() == 1 {
        decimal(ids[0] as nat)
    } else {
        joined_ids(ids.drop_last()) + ","@ + decimal(ids.last() as nat)
    }
}

/// Appends the identifiers `ids` to `out`, in decimal and separated by
/// commas.
pub fn push_joined_ids(out: &mut String, ids: &Vec<u64>)
    ensures
        final(out)@ == old(out)@ + joined_ids(ids@),
{
    let mut i: usize = 0;
    while i < ids.len()
        invariant
            i <= ids.len(),
            out@ == old(out)@ + joined_ids(ids@.subrange(0, i as int)),
        decreases ids.len() - i,
    {
        let ghost before = out@;
        if i > 0 {
            out.append(",");
        }
        push_decimal(out, ids[i]);
        i += 1;
        proof {
            let now = ids@.subrange(0, i as int);
            assert(now.drop_last() =~= ids@.subrange(0, i - 1));
            assert(now.last() == ids@[i - 1]);
            assert(out@ =~= old(out)@ + joined_ids(now));
        }
    }
    assert(ids@.subrange(0, i as int) =~= ids@);
}

} // verus!
