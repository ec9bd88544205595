//! The query preprocessor: frames a query and expands the macros in it.
//!
//! A macro is written `{{name}}` or `{{name:body}}`. `{{bbox}}` and
//! `{{center}}` stand for the bounding box of the request,
//! `{{geocodeArea:place;place@lang}}` for the areas that a geocoder finds,
//! and `{{aroundSelf.set:distance}}` for the elements of a set that lie near
//! another element of it. Any other macro stays as it is written.

use vstd::prelude::*;
use vstd::string::*;
use crate::graph::errors::GraphError;
use crate::nominatim::Nominatim;
use crate::nominatim::NominatimError;
use crate::nominatim::NominatimErrorView;
use crate::nominatim::NominatimOuput;
use crate::nominatim::NominatimOuputView;
use crate::nominatim::joined_ids;
use crate::nominatim::push_joined_ids;
use crate::search::Bbox;
use crate::search::BboxView;
use crate::search::GeocodeaArea;
use crate::search::GeocodeaAreaView;
use crate::search::areas_view;
use crate::text::begins_with;
use crate::text::decimal;
use crate::text::push_decimal;
use crate::text::split_on;
use crate::text::split_text;
use crate::text::strings_view;
use crate::text::strip_prefixes;
use crate::text::text_begins_with;
use crate::text::text_is;
use crate::text::trim_text;
use crate::text::trimmed;
use crate::text::without_prefixes;

verus! {

/// The pattern of a macro: two opening braces, white space, a name of word
/// characters and dots, then optionally a colon and a body that ends at the
/// first two closing braces.
pub const MACRO_PATTERN: &'static str = r"\{\{\s*([\w.]+)(:([\S\s]+?))?\}\}";

/// How many characters the random part of an identifier has.
pub const SUFFIX_LENGTH: usize = 10;

/// A macro as it was found in a query: the whole of it with its braces, its
/// name, and its body where it has one.
#[derive(Clone, Debug, PartialEq, Eq)]
pub struct MacroCall {
    pub whole: String,
    pub name: String,
    pub body: Option<String>,
}

pub struct MacroCallView {
    pub whole: Seq<char>,
    pub name: Seq<char>,
    pub body: Option<Seq<char>>,
}

impl View for MacroCall {
    type V = MacroCallView;

    open spec fn view(&self) -> MacroCallView {
        MacroCallView {
            whole: self.whole@,
            name: self.name@,
            body: match self.body {
                Some(b) => Some(b@),
                None => None,
            },
        }
    }
}

/// The macro calls `s`, each by its view.
pub open spec fn calls_view(s: Seq<MacroCall>) -> Seq<MacroCallView> {
    s.map_values(|c: MacroCall| c@)
}

/// The matches of `pattern` in `text`, from left to right and without
/// overlap, each with what its first and its third group matched.
pub uninterp spec fn regex_matches(pattern: Seq<char>, text: Seq<char>) -> Seq<MacroCallView>;

/// The parts of `text` that lie between the matches of `pattern`.
pub uninterp spec fn regex_gaps(pattern: Seq<char>, text: Seq<char>) -> Seq<Seq<char>>;

/// The text that has `pieces` between `gaps`: a gap, then in turn a piece
/// and the next gap, up to the `n`-th piece.
pub open spec fn woven(gaps: Seq<Seq<char>>, pieces: Seq<Seq<char>>, n: nat) -> Seq<char>
    decreases n,
{
    if n == 0 {
        gaps[0]
    } else {
        woven(gaps, pieces, (n - 1) as nat) + pieces[n - 1] + gaps[n as int]
    }
}

/// The macros `calls`, each as it was written.
pub open spec fn written(calls: Seq<MacroCallView>) -> Seq<Seq<char>> {
    calls.map_values(|c: MacroCallView| c.whole)
}

/// `regex::Regex::captures_iter` on `text`, with the regex that
/// `regex::Regex::new` makes of `pattern`: the successive matches that do
/// not overlap. Of each the wrapper keeps the whole match, what the first
/// group matched, and what the third group matched where it took part.
#[verifier::external_body]
fn find_macros(pattern: &str, text: &str) -> (calls: Vec<MacroCall>)
    requires
        pattern@ == MACRO_PATTERN@,
    ensures
        calls_view(calls@) == regex_matches(pattern@, text@),
{
    let re = regex::Regex::new(pattern).unwrap();
    re.captures_iter(text).map(
        |c|
            MacroCall {
                whole: c[0].to_string(),
                name: c[1].to_string(),
                body: c.get(3).map(|m| m.as_str().to_string()),
            },
    ).collect()
}

/// `regex::Regex::split` on `text`, with the regex that `regex::Regex::new`
/// makes of `pattern`: the substrings of `text` that the matches delimit.
/// There is one more of them than there are matches, and the text is the
/// substrings with the matches between them.
#[verifier::external_body]
fn split_at_macros(pattern: &str, text: &str) -> (gaps: Vec<String>)
    requires
        pattern@ == MACRO_PATTERN@,
    ensures
        strings_view(gaps@) == regex_gaps(pattern@, text@),
        gaps@.len() == regex_matches(pattern@, text@).len() + 1,
        woven(
            strings_view(gaps@),
            written(regex_matches(pattern@, text@)),
            regex_matches(pattern@, text@).len(),
        ) == text@,
{
    let re = regex::Regex::new(pattern).unwrap();
    re.split(text).map(|gap| gap.to_string()).collect()
}

/// Whether `c` is an ASCII letter or digit.
pub open spec fn alphanumeric(c: char) -> bool {
    ('a' <= c && c <= 'z') || ('A' <= c && c <= 'Z') || ('0' <= c && c <= '9')
}

/// `rand::Rng::sample_iter` on the generator of `rand::thread_rng`, with the
/// distribution `rand::distributions::Alphanumeric`, which gives ASCII
/// letters and digits: the first `length` samples, as a string.
#[verifier::external_body]
fn random_suffix(length: usize) -> (suffix: String)
    ensures
        suffix@.len() == length,
        forall|i: int| 0 <= i < suffix@.len() ==> alphanumeric(#[trigger] suffix@[i]),
{
    let rng = rand::thread_rng();
    rand::Rng::sample_iter(rng, &rand::distributions::Alphanumeric).take(length).map(
        char::from,
    ).collect()
}

/// Where the random part of an identifier comes from.
#[derive(Clone, Debug, PartialEq, Eq)]
pub enum IdSource {
    /// Each identifier gets ten random letters and digits.
    Random,
    /// Each identifier gets this text, for output that can be compared.
    Fixed(String),
}

/// Whether `suffix` can come from `source`.
pub open spec fn suffix_from(source: IdSource, suffix: Seq<char>) -> bool {
    match source {
        IdSource::Random => suffix.len() == SUFFIX_LENGTH && forall|i: int|
            0 <= i < suffix.len() ==> alphanumeric(#[trigger] suffix[i]),
        IdSource::Fixed(text) => suffix == text@,
    }
}

/// A suffix from `source`.
pub fn draw_suffix(source: &IdSource) -> (suffix: String)
    ensures
        suffix_from(*source, suffix@),
{
    match source {
        IdSource::Random => random_suffix(SUFFIX_LENGTH),
        IdSource::Fixed(text) => text.clone(),
    }
}

/// The identifier of an internal set: `internal__`, the label, an
/// underscore and the suffix.
pub open spec fn internal_id_text(label: Seq<char>, suffix: Seq<char>) -> Seq<char> {
    "internal__"@ + label + "_"@ + suffix
}

/// The identifier of an internal set with the label `id`.
pub fn internal_id(id: &str, suffix: &str) -> (name: String)
    ensures
        name@ == internal_id_text(id@, suffix@),
{
    let mut name = String::from_str("internal__");
    name.append(id);
    name.append("_");
    name.append(suffix);
    name
}

/// The kinds of macro.
pub enum MacroKind {
    Bbox,
    Center,
    GeocodeArea,
    AroundSelf,
    /// A macro that the preprocessor leaves as it is written: one of a name
    /// that it does not know, or one that lacks the body that its name asks
    /// for.
    Other,
}

/// The kind of the macro `call`.
pub open spec fn kind_of(call: MacroCallView) -> MacroKind {
    if call.name == "bbox"@ {
        MacroKind::Bbox
    } else if call.name == "center"@ {
        MacroKind::Center
    } else if call.name == "geocodeArea"@ {
        if call.body is Some {
            MacroKind::GeocodeArea
        } else {
            MacroKind::Other
        }
    } else if begins_with(call.name, "aroundSelf."@) {
        if call.body is Some {
            MacroKind::AroundSelf
        } else {
            MacroKind::Other
        }
    } else {
        MacroKind::Other
    }
}

/// The kind of the macro `call`.
pub fn classify(call: &MacroCall) -> (kind: MacroKind)
    ensures
        kind == kind_of(call@),
{
    if text_is(call.name.as_str(), "bbox") {
        MacroKind::Bbox
    } else if text_is(call.name.as_str(), "center") {
        MacroKind::Center
    } else if text_is(call.name.as_str(), "geocodeArea") {
        if call.body.is_some() {
            MacroKind::GeocodeArea
        } else {
            MacroKind::Other
        }
    } else if text_begins_with(call.name.as_str(), "aroundSelf.") {
        if call.body.is_some() {
            MacroKind::AroundSelf
        } else {
            MacroKind::Other
        }
    } else {
        MacroKind::Other
    }
}

/// A place to look up: its description and the language of the answer.
#[derive(Clone, Debug, PartialEq, Eq)]
pub struct GeocodeRequest {
    pub search: String,
    pub lang: String,
}

pub struct GeocodeRequestView {
    pub search: Seq<char>,
    pub lang: Seq<char>,
}

impl View for GeocodeRequest {
    type V = GeocodeRequestView;

    open spec fn view(&self) -> GeocodeRequestView {
        GeocodeRequestView { search: self.search@, lang: self.lang@ }
    }
}

/// The requests `s`, each by its view.
pub open spec fn requests_view(s: Seq<GeocodeRequest>) -> Seq<GeocodeRequestView> {
    s.map_values(|r: GeocodeRequest| r@)
}

/// The request that one entry of a `geocodeArea` body stands for: the
/// description is what stands before the first `@`, the language what
/// stands between the first `@` and the second, each without the white space
/// around it. Without an `@` the language is `en`.
pub open spec fn request_of(entry: Seq<char>) -> GeocodeRequestView {
    let parts = split_on(entry, '@');
    GeocodeRequestView {
        search: trimmed(parts[0]),
        lang: if parts.len() >= 2 {
            trimmed(parts[1])
        } else {
            "en"@
        },
    }
}

/// The requests of a `geocodeArea` body: one for each entry between
/// semicolons.
pub open spec fn requests_of_body(body: Seq<char>) -> Seq<GeocodeRequestView> {
    split_on(body, ';').map_values(|entry: Seq<char>| request_of(entry))
}

/// The requests that the macro `call` makes.
pub open spec fn requests_of(call: MacroCallView) -> Seq<GeocodeRequestView> {
    match kind_of(call) {
        MacroKind::GeocodeArea => requests_of_body(call.body->0),
        _ => Seq::empty(),
    }
}

/// The requests that the first `n` of `calls` make, in order.
pub open spec fn requests_before(calls: Seq<MacroCallView>, n: nat) -> Seq<GeocodeRequestView>
    decreases n,
{
    if n == 0 {
        Seq::empty()
    } else {
        requests_before(calls, (n - 1) as nat) + requests_of(calls[n - 1])
    }
}

/// How many `aroundSelf` macros are among the first `n` of `calls`.
pub open spec fn arounds_before(calls: Seq<MacroCallView>, n: nat) -> nat
    decreases n,
{
    if n == 0 {
        0
    } else {
        arounds_before(calls, (n - 1) as nat) + if kind_of(calls[n - 1]) is AroundSelf {
            1nat
        } else {
            0nat
        }
    }
}

/// How many suffixes one `aroundSelf` macro takes: one for each of its
/// internal sets.
pub const SUFFIXES_PER_AROUND: usize = 5;

/// A split gives at least one piece.
pub proof fn lemma_split_on_nonempty(s: Seq<char>, sep: char)
    ensures
        split_on(s, sep).len() >= 1,
    decreases s.len(),
{
    if s.len() > 0 {
        lemma_split_on_nonempty(s.drop_last(), sep);
    }
}

fn request_for(entry: &str) -> (request: GeocodeRequest)
    ensures
        request@ == request_of(entry@),
{
    let parts = split_text(entry, '@');
    proof {
        lemma_split_on_nonempty(entry@, '@');
        assert(strings_view(parts@).len() == parts@.len());
        assert(strings_view(parts@)[0] == parts@[0]@);
    }
    let search = trim_text(parts[0].as_str());
    let lang = if parts.len() >= 2 {
        assert(strings_view(parts@)[1] == parts@[1]@);
        trim_text(parts[1].as_str())
    } else {
        String::from_str("en")
    };
    GeocodeRequest { search, lang }
}

/// Appends the requests of the macro `call` to `out`.
fn push_requests(out: &mut Vec<GeocodeRequest>, call: &MacroCall)
    ensures
        requests_view(final(out)@) == requests_view(old(out)@) + requests_of(call@),
{
    match classify(call) {
        MacroKind::GeocodeArea => {
            let body = match &call.body {
                Some(b) => b,
                None => {
                    assert(false);
                    return ;
                },
            };
            let entries = split_text(body.as_str(), ';');
            let ghost wanted = requests_of_body(body@);
            assert(wanted.len() == entries@.len()) by {
                assert(strings_view(entries@).len() == entries@.len());
            }
            let mut i: usize = 0;
            while i < entries.len()
                invariant
                    i <= entries.len(),
                    wanted == requests_of_body(body@),
                    wanted.len() == entries@.len(),
                    strings_view(entries@) == split_on(body@, ';'),
                    requests_view(out@) == requests_view(old(out)@) + wanted.subrange(0, i as int),
                decreases entries.len() - i,
            {
                let ghost before = out@;
                let request = request_for(entries[i].as_str());
                assert(request@ == wanted[i as int]) by {
                    assert(strings_view(entries@)[i as int] == entries@[i as int]@);
                }
                out.push(request);
                i += 1;
                assert(requests_view(out@) =~= requests_view(old(out)@) + wanted.subrange(
                    0,
                    i as int,
                )) by {
                    assert(out@ == before.push(request));
                    assert(requests_view(before.push(request)) =~= requests_view(before).push(
                        request@,
                    ));
                    assert(wanted.subrange(0, i as int) =~= wanted.subrange(0, i - 1).push(
                        wanted[i - 1],
                    ));
                }
            }
            assert(wanted.subrange(0, i as int) =~= wanted);
        },
        _ => {
            assert(requests_view(out@) =~= requests_view(old(out)@) + requests_of(call@));
        },
    }
}

/// The places that the macros `calls` ask a geocoder for, in the order in
/// which they are written.
pub fn geocode_requests(calls: &Vec<MacroCall>) -> (requests: Vec<GeocodeRequest>)
    ensures
        requests_view(requests@) == requests_before(calls_view(calls@), calls@.len()),
{
    let mut requests: Vec<GeocodeRequest> = Vec::new();
    let mut i: usize = 0;
    assert(requests_view(requests@) =~= requests_before(calls_view(calls@), 0));
    while i < calls.len()
        invariant
            i <= calls.len(),
            requests_view(requests@) == requests_before(calls_view(calls@), i as nat),
        decreases calls.len() - i,
    {
        push_requests(&mut requests, &calls[i]);
        assert(calls_view(calls@)[i as int] == calls@[i as int]@);
        i += 1;
    }
    requests
}

/// The places that the macros of `query` ask a geocoder for, in the order
/// in which they are written.
pub fn query_requests(query: &str) -> (requests: Vec<GeocodeRequest>)
    ensures
        requests_view(requests@) == requests_before(
            regex_matches(MACRO_PATTERN@, query@),
            regex_matches(MACRO_PATTERN@, query@).len(),
        ),
{
    let calls = find_macros(MACRO_PATTERN, query);
    assert(calls@.len() == calls_view(calls@).len());
    geocode_requests(&calls)
}

/// The answers `s`, each by its view.
pub open spec fn answers_view(s: Seq<NominatimOuput>) -> Seq<NominatimOuputView> {
    s.map_values(|a: NominatimOuput| a@)
}

/// The areas of `answers`, in order.
pub open spec fn answer_areas(answers: Seq<NominatimOuputView>) -> Seq<GeocodeaAreaView> {
    answers.map_values(|a: NominatimOuputView| a.area)
}

/// The text for `{{bbox}}`: the south-west corner, then the north-east one.
pub open spec fn bbox_text(bbox: BboxView) -> Seq<char> {
    bbox.sw_lat + ","@ + bbox.sw_lng + ","@ + bbox.ne_lat + ","@ + bbox.ne_lng
}

/// The text for `{{center}}`.
pub open spec fn center_text(bbox: BboxView) -> Seq<char> {
    bbox.center_lat + ","@ + bbox.center_lng
}

/// One area statement for each of the first `n` of `answers`.
pub open spec fn area_statements(answers: Seq<NominatimOuputView>, n: nat) -> Seq<char>
    decreases n,
{
    if n == 0 {
        Seq::empty()
    } else {
        area_statements(answers, (n - 1) as nat) + "area(id:"@ + joined_ids(answers[n - 1].ids)
            + ");"@
    }
}

/// The text for a `geocodeArea` macro whose requests were answered with
/// `answers`.
pub open spec fn geocode_text(answers: Seq<NominatimOuputView>) -> Seq<char> {
    "("@ + area_statements(answers, answers.len()) + ")"@
}

/// The text for an `aroundSelf` macro on the set `set` with the distance
/// `distance`; the other five are the identifiers of its internal sets.
pub open spec fn around_self_text(
    set: Seq<char>,
    distance: Seq<char>,
    it: Seq<char>,
    nearby: Seq<char>,
    empty: Seq<char>,
    others: Seq<char>,
    collect: Seq<char>,
) -> Seq<char> {
    "foreach."@ + set + "->."@ + it + "(nwr."@ + set + "(around."@ + it + ":"@ + distance
        + ")->."@ + nearby + "; (."@ + nearby + "; - ."@ + it + ";)->."@ + others + "; (."@
        + collect + "; ."@ + others + ";)->."@ + collect + ";); ."@ + empty + "->._; ."@ + collect
}

/// What stands in place of the macro `call`. `answers` are the geocoder's
/// answers to the requests of this macro, and `suffixes` the suffixes for
/// its internal sets, which are `it`, `nearby`, `empty`, `others` and
/// `collect`, in this order.
pub open spec fn replacement(
    call: MacroCallView,
    bbox: BboxView,
    answers: Seq<NominatimOuputView>,
    suffixes: Seq<Seq<char>>,
) -> Seq<char> {
    match kind_of(call) {
        MacroKind::Bbox => bbox_text(bbox),
        MacroKind::Center => center_text(bbox),
        MacroKind::GeocodeArea => geocode_text(answers),
        MacroKind::AroundSelf => around_self_text(
            without_prefixes(call.name, "aroundSelf."@),
            call.body->0,
            internal_id_text("it"@, suffixes[0]),
            internal_id_text("nearby"@, suffixes[1]),
            internal_id_text("empty"@, suffixes[2]),
            internal_id_text("others"@, suffixes[3]),
            internal_id_text("collect"@, suffixes[4]),
        ),
        MacroKind::Other => call.whole,
    }
}

/// The query up to and with the gap behind the `n`-th macro, each macro
/// replaced. `answers` holds the answers to all requests, and `suffixes`
/// five suffixes for each `aroundSelf` macro, both in the order of the
/// macros.
pub open spec fn expanded(
    gaps: Seq<Seq<char>>,
    calls: Seq<MacroCallView>,
    bbox: BboxView,
    answers: Seq<NominatimOuputView>,
    suffixes: Seq<Seq<char>>,
    n: nat,
) -> Seq<char>
    decreases n,
{
    if n == 0 {
        gaps[0]
    } else {
        let before = (n - 1) as nat;
        let a = requests_before(calls, before).len() as int;
        let s = SUFFIXES_PER_AROUND * arounds_before(calls, before);
        expanded(gaps, calls, bbox, answers, suffixes, before) + replacement(
            calls[n - 1],
            bbox,
            answers.subrange(a, a + requests_of(calls[n - 1]).len()),
            suffixes.subrange(s, s + SUFFIXES_PER_AROUND),
        ) + gaps[n as int]
    }
}

/// The line that is put before a query.
pub open spec fn header(timeout: u32) -> Seq<char> {
    "[out:json][timeout:"@ + decimal(timeout as nat) + "];\n\n"@
}

/// The lines that are put behind a query.
pub open spec fn footer() -> Seq<char> {
    "\n\nout;>;out skel qt;"@
}

/// The preprocessed query: the header, the query with each macro replaced,
/// and the footer.
pub open spec fn preprocessed(
    gaps: Seq<Seq<char>>,
    calls: Seq<MacroCallView>,
    bbox: BboxView,
    timeout: u32,
    answers: Seq<NominatimOuputView>,
    suffixes: Seq<Seq<char>>,
) -> Seq<char> {
    header(timeout) + expanded(gaps, calls, bbox, answers, suffixes, calls.len()) + footer()
}

/// The requests of the first `i` macros are among those of the first `n`,
/// and so are the `aroundSelf` macros.
pub proof fn lemma_counts_grow(calls: Seq<MacroCallView>, i: nat, n: nat)
    requires
        i <= n,
    ensures
        requests_before(calls, i).len() <= requests_before(calls, n).len(),
        arounds_before(calls, i) <= arounds_before(calls, n),
    decreases n - i,
{
    if i < n {
        lemma_counts_grow(calls, i, (n - 1) as nat);
    }
}

fn bbox_replacement(bbox: &Bbox) -> (r: String)
    ensures
        r@ == bbox_text(bbox@),
{
    let mut r = bbox.sw_lat.clone();
    r.append(",");
    r.append(bbox.sw_lng.as_str());
    r.append(",");
    r.append(bbox.ne_lat.as_str());
    r.append(",");
    r.append(bbox.ne_lng.as_str());
    r
}

fn center_replacement(bbox: &Bbox) -> (r: String)
    ensures
        r@ == center_text(bbox@),
{
    let mut r = bbox.center_lat.clone();
    r.append(",");
    r.append(bbox.center_lng.as_str());
    r
}

fn geocode_replacement(answers: &Vec<NominatimOuput>, from: usize, count: usize) -> (r: String)
    requires
        from + count <= answers.len(),
    ensures
        r@ == geocode_text(answers_view(answers@).subrange(from as int, from + count)),
{
    let ghost mine = answers_view(answers@).subrange(from as int, from + count);
    let mut r = String::from_str("(");
    let mut j: usize = 0;
    assert(r@ =~= "("@ + area_statements(mine, 0));
    while j < count
        invariant
            j <= count,
            from + count <= answers.len(),
            mine == answers_view(answers@).subrange(from as int, from + count),
            r@ == "("@ + area_statements(mine, j as nat),
        decreases count - j,
    {
        let ghost before = r@;
        r.append("area(id:");
        push_joined_ids(&mut r, &answers[from + j].ids);
        r.append(");");
        assert(mine[j as int].ids == answers@[from + j].ids@);
        j += 1;
        assert(r@ =~= "("@ + area_statements(mine, j as nat));
    }
    r.append(")");
    r
}

fn around_replacement(call: &MacroCall, suffixes: &Vec<String>, from: usize) -> (r: String)
    requires
        kind_of(call@) is AroundSelf,
        from + SUFFIXES_PER_AROUND <= suffixes.len(),
    ensures
        r@ == replacement(
            call@,
            arbitrary(),
            arbitrary(),
            strings_view(suffixes@).subrange(from as int, from + SUFFIXES_PER_AROUND),
        ),
{
    let ghost mine = strings_view(suffixes@).subrange(from as int, from + SUFFIXES_PER_AROUND);
    proof {
        assert(mine[0] == suffixes@[from as int]@);
        assert(mine[1] == suffixes@[from + 1]@);
        assert(mine[2] == suffixes@[from + 2]@);
        assert(mine[3] == suffixes@[from + 3]@);
        assert(mine[4] == suffixes@[from + 4]@);
    }
    let set = strip_prefixes(call.name.as_str(), "aroundSelf.");
    let distance = match &call.body {
        Some(b) => b,
        None => {
            assert(false);
            return String::new();
        },
    };
    let it = internal_id("it", suffixes[from].as_str());
    let nearby = internal_id("nearby", suffixes[from + 1].as_str());
    let empty = internal_id("empty", suffixes[from + 2].as_str());
    let others = internal_id("others", suffixes[from + 3].as_str());
    let collect = internal_id("collect", suffixes[from + 4].as_str());
    let mut r = String::from_str("foreach.");
    r.append(set.as_str());
    r.append("->.");
    r.append(it.as_str());
    r.append("(nwr.");
    r.append(set.as_str());
    r.append("(around.");
    r.append(it.as_str());
    r.append(":");
    r.append(distance.as_str());
    r.append(")->.");
    r.append(nearby.as_str());
    r.append("; (.");
    r.append(nearby.as_str());
    r.append("; - .");
    r.append(it.as_str());
    r.append(";)->.");
    r.append(others.as_str());
    r.append("; (.");
    r.append(collect.as_str());
    r.append("; .");
    r.append(others.as_str());
    r.append(";)->.");
    r.append(collect.as_str());
    r.append(";); .");
    r.append(empty.as_str());
    r.append("->._; .");
    r.append(collect.as_str());
    r
}

/// How many requests the macro `call` makes.
fn request_count(call: &MacroCall) -> (count: usize)
    ensures
        count == requests_of(call@).len(),
{
    match classify(call) {
        MacroKind::GeocodeArea => {
            let body = match &call.body {
                Some(b) => b,
                None => {
                    assert(false);
                    return 0;
                },
            };
            let entries = split_text(body.as_str(), ';');
            assert(strings_view(entries@).len() == entries@.len());
            entries.len()
        },
        _ => 0,
    }
}

/// Frames a query and replaces its macros. `gaps` and `calls` are the
/// query cut at its macros: the texts between the macros, and the macros.
/// `answers` holds the geocoder's answer to each request of the macros, and
/// `suffixes` five suffixes for each `aroundSelf` macro. The areas of the
/// answers are handed back beside the text.
pub fn expand(
    gaps: &Vec<String>,
    calls: &Vec<MacroCall>,
    bbox: &Bbox,
    timeout: u32,
    answers: &Vec<NominatimOuput>,
    suffixes: &Vec<String>,
) -> (out: (String, Vec<GeocodeaArea>))
    requires
        gaps@.len() == calls@.len() + 1,
        answers@.len() == requests_before(calls_view(calls@), calls@.len()).len(),
        suffixes@.len() == SUFFIXES_PER_AROUND * arounds_before(calls_view(calls@), calls@.len()),
    ensures
        out.0@ == preprocessed(
            strings_view(gaps@),
            calls_view(calls@),
            bbox@,
            timeout,
            answers_view(answers@),
            strings_view(suffixes@),
        ),
        areas_view(out.1@) == answer_areas(answers_view(answers@)),
{
    let ghost gv = strings_view(gaps@);
    let ghost cv = calls_view(calls@);
    let ghost av = answers_view(answers@);
    let ghost sv = strings_view(suffixes@);
    let mut text = String::from_str("[out:json][timeout:");
    push_decimal(&mut text, timeout as u64);
    text.append("];\n\n");
    assert(text@ == header(timeout));
    text.append(gaps[0].as_str());
    assert(gv[0] == gaps@[0]@);
    let mut a: usize = 0;
    let mut s: usize = 0;
    let mut i: usize = 0;
    while i < calls.len()
        invariant
            i <= calls.len(),
            gaps@.len() == calls@.len() + 1,
            answers@.len() == requests_before(cv, calls@.len()).len(),
            suffixes@.len() == SUFFIXES_PER_AROUND * arounds_before(cv, calls@.len()),
            gv == strings_view(gaps@),
            cv == calls_view(calls@),
            av == answers_view(answers@),
            sv == strings_view(suffixes@),
            a == requests_before(cv, i as nat).len(),
            s == SUFFIXES_PER_AROUND * arounds_before(cv, i as nat),
            text@ == header(timeout) + expanded(gv, cv, bbox@, av, sv, i as nat),
        decreases calls.len() - i,
    {
        let call = &calls[i];
        let ghost before = text@;
        proof {
            lemma_counts_grow(cv, (i + 1) as nat, calls@.len());
            assert(cv[i as int] == call@);
            assert(gv[i + 1] == gaps@[i + 1]@);
        }
        let count = request_count(call);
        let kind = classify(call);
        proof {
            assert(requests_before(cv, (i + 1) as nat) == requests_before(cv, i as nat)
                + requests_of(cv[i as int]));
            assert(arounds_before(cv, (i + 1) as nat) == arounds_before(cv, i as nat) + if kind_of(
                cv[i as int],
            ) is AroundSelf {
                1nat
            } else {
                0nat
            });
        }
        let mut step: usize = 0;
        let r = match kind {
            MacroKind::Bbox => bbox_replacement(bbox),
            MacroKind::Center => center_replacement(bbox),
            MacroKind::GeocodeArea => geocode_replacement(answers, a, count),
            MacroKind::AroundSelf => {
                step = SUFFIXES_PER_AROUND;
                around_replacement(call, suffixes, s)
            },
            MacroKind::Other => call.whole.clone(),
        };
        assert(r@ == replacement(
            call@,
            bbox@,
            av.subrange(a as int, a + count),
            sv.subrange(s as int, s + SUFFIXES_PER_AROUND),
        ));
        text.append(r.as_str());
        text.append(gaps[i + 1].as_str());
        assert(a + count <= answers.len());
        assert(s + step <= suffixes.len());
        a += count;
        s += step;
        i += 1;
        assert(text@ =~= header(timeout) + expanded(gv, cv, bbox@, av, sv, i as nat));
    }
    text.append("\n\nout;>;out skel qt;");
    let mut areas: Vec<GeocodeaArea> = Vec::new();
    let mut k: usize = 0;
    while k < answers.len()
        invariant
            k <= answers.len(),
            areas.len() == k,
            forall|j: int| 0 <= j < k ==> areas@[j]@ == answers@[j].area@,
        decreases answers.len() - k,
    {
        let area = answers[k].area.duplicate();
        areas.push(area);
        k += 1;
    }
    assert(areas_view(areas@) =~= answer_areas(answers_view(answers@)));
    (text, areas)
}

/// Whether `text` and `areas` are what the query cut into `gaps` and
/// `calls` comes to, for the answers `answers` and suffixes `suffixes` that
/// `ids` can give.
pub open spec fn preprocessed_with(
    gaps: Seq<Seq<char>>,
    calls: Seq<MacroCallView>,
    bbox: BboxView,
    timeout: u32,
    ids: IdSource,
    answers: Seq<NominatimOuputView>,
    suffixes: Seq<Seq<char>>,
    text: Seq<char>,
    areas: Seq<GeocodeaAreaView>,
) -> bool {
    &&& answers.len() == requests_before(calls, calls.len()).len()
    &&& suffixes.len() == SUFFIXES_PER_AROUND * arounds_before(calls, calls.len())
    &&& forall|k: int| 0 <= k < suffixes.len() ==> suffix_from(ids, #[trigger] suffixes[k])
    &&& text == preprocessed(gaps, calls, bbox, timeout, answers, suffixes)
    &&& areas == answer_areas(answers)
}

/// Draws five suffixes for each `aroundSelf` macro among `calls`.
fn draw_suffixes(calls: &Vec<MacroCall>, ids: &IdSource) -> (suffixes: Vec<String>)
    ensures
        suffixes@.len() == SUFFIXES_PER_AROUND * arounds_before(calls_view(calls@), calls@.len()),
        forall|k: int|
            0 <= k < suffixes@.len() ==> suffix_from(*ids, #[trigger] strings_view(suffixes@)[k]),
{
    let mut suffixes: Vec<String> = Vec::new();
    let mut i: usize = 0;
    while i < calls.len()
        invariant
            i <= calls.len(),
            suffixes@.len() == SUFFIXES_PER_AROUND * arounds_before(calls_view(calls@), i as nat),
            forall|k: int| 0 <= k < suffixes@.len() ==> suffix_from(*ids, #[trigger] suffixes@[k]@),
        decreases calls.len() - i,
    {
        assert(calls_view(calls@)[i as int] == calls@[i as int]@);
        match classify(&calls[i]) {
            MacroKind::AroundSelf => {
                let mut j: usize = 0;
                while j < SUFFIXES_PER_AROUND
                    invariant
                        j <= SUFFIXES_PER_AROUND,
                        suffixes@.len() == SUFFIXES_PER_AROUND * arounds_before(
                            calls_view(calls@),
                            i as nat,
                        ) + j,
                        forall|k: int|
                            0 <= k < suffixes@.len() ==> suffix_from(
                                *ids,
                                #[trigger] suffixes@[k]@,
                            ),
                    decreases SUFFIXES_PER_AROUND - j,
                {
                    let suffix = draw_suffix(ids);
                    suffixes.push(suffix);
                    j += 1;
                }
            },
            _ => {},
        }
        i += 1;
    }
    suffixes
}

/// Whether none of `calls` is a macro that the preprocessor replaces.
pub open spec fn all_unknown(calls: Seq<MacroCallView>) -> bool {
    forall|i: int| 0 <= i < calls.len() ==> kind_of(#[trigger] calls[i]) is Other
}

/// Macros that the preprocessor does not know ask for no place and take no
/// suffix.
pub proof fn lemma_unknown_macros_ask_nothing(calls: Seq<MacroCallView>, n: nat)
    requires
        n <= calls.len(),
        all_unknown(calls),
    ensures
        requests_before(calls, n).len() == 0,
        arounds_before(calls, n) == 0,
    decreases n,
{
    if n > 0 {
        lemma_unknown_macros_ask_nothing(calls, (n - 1) as nat);
        assert(kind_of(calls[n - 1]) is Other);
    }
}

/// Whether `found` is an answer of `nominatim` to the request `request`.
pub open spec fn is_answer<N: Nominatim>(
    nominatim: &N,
    request: GeocodeRequestView,
    found: Result<NominatimOuputView, NominatimErrorView>,
) -> bool {
    exists|search: &str, lang: &str, out: Result<NominatimOuput, NominatimError>|
        search@ == request.search && lang@ == request.lang && #[trigger] call_ensures(
            N::search,
            (nominatim, search, lang),
            out,
        ) && found == match out {
            Ok(o) => Ok::<NominatimOuputView, NominatimErrorView>(o@),
            Err(e) => Err::<NominatimOuputView, NominatimErrorView>(e@),
        }
}

/// Whether `text` and `areas` are what the query cut into `gaps` and
/// `calls` comes to where `nominatim` gave the answers `answers` to the
/// requests of the query, one to each and in their order, and `ids` the
/// suffixes `suffixes`.
pub open spec fn preprocessed_by<N: Nominatim>(
    nominatim: &N,
    gaps: Seq<Seq<char>>,
    calls: Seq<MacroCallView>,
    bbox: BboxView,
    timeout: u32,
    ids: IdSource,
    answers: Seq<NominatimOuputView>,
    suffixes: Seq<Seq<char>>,
    text: Seq<char>,
    areas: Seq<GeocodeaAreaView>,
) -> bool {
    &&& preprocessed_with(gaps, calls, bbox, timeout, ids, answers, suffixes, text, areas)
    &&& forall|k: int|
        0 <= k < answers.len() ==> is_answer(
            nominatim,
            requests_before(calls, calls.len())[k],
            Ok(#[trigger] answers[k]),
        )
}

/// Whether `nominatim` has an answer to the request `request`.
pub open spec fn answered<N: Nominatim>(nominatim: &N, request: GeocodeRequestView) -> bool {
    exists|answer: NominatimOuputView| #[trigger] is_answer(nominatim, request, Ok(answer))
}

/// Whether `nominatim` failed with `e` at one of the requests of `calls`,
/// after it had answered those before it.
pub open spec fn failed_by<N: Nominatim>(
    nominatim: &N,
    calls: Seq<MacroCallView>,
    e: NominatimErrorView,
) -> bool {
    let requests = requests_before(calls, calls.len());
    exists|at: int|
        0 <= at < requests.len() && #[trigger] is_answer(nominatim, requests[at], Err(e))
            && forall|k: int| 0 <= k < at ==> answered(nominatim, #[trigger] requests[k])
}

/// Frames `query` and replaces its macros: asks `nominatim` for each place
/// that a `geocodeArea` macro names, in the order in which they are
/// written, and draws the suffixes of internal sets from `ids`.
///
/// Fails with the geocoder's error as soon as the geocoder fails, and never
/// where the query asks for no place. What is handed back otherwise is the
/// preprocessed query for the answers that came and the suffixes that were
/// drawn, with the areas of the answers.
pub fn preprocess_query<N: Nominatim>(
    query: &str,
    bbox: &Bbox,
    timeout: u32,
    nominatim: &N,
    ids: &IdSource,
) -> (out: Result<(String, Vec<GeocodeaArea>), GraphError>)
    ensures
        out is Ok ==> exists|answers: Seq<NominatimOuputView>, suffixes: Seq<Seq<char>>|
            #[trigger] preprocessed_by(
                nominatim,
                regex_gaps(MACRO_PATTERN@, query@),
                regex_matches(MACRO_PATTERN@, query@),
                bbox@,
                timeout,
                *ids,
                answers,
                suffixes,
                out->Ok_0.0@,
                areas_view(out->Ok_0.1@),
            ),
        out is Err ==> out->Err_0@ is Nominatim && failed_by(
            nominatim,
            regex_matches(MACRO_PATTERN@, query@),
            out->Err_0@->Nominatim_0,
        ),
        regex_gaps(MACRO_PATTERN@, query@).len() == regex_matches(MACRO_PATTERN@, query@).len()
            + 1,
        woven(
            regex_gaps(MACRO_PATTERN@, query@),
            written(regex_matches(MACRO_PATTERN@, query@)),
            regex_matches(MACRO_PATTERN@, query@).len(),
        ) == query@,
        all_unknown(regex_matches(MACRO_PATTERN@, query@)) ==> out is Ok && out->Ok_0.0@
            == header(timeout) + query@ + footer() && out->Ok_0.1@.len() == 0,
{
    let gaps = split_at_macros(MACRO_PATTERN, query);
    assert(gaps@.len() == strings_view(gaps@).len());
    let calls = find_macros(MACRO_PATTERN, query);
    assert(calls@.len() == calls_view(calls@).len());
    let requests = geocode_requests(&calls);
    assert(requests@.len() == requests_view(requests@).len());
    let mut answers: Vec<NominatimOuput> = Vec::new();
    let mut i: usize = 0;
    let ghost found = regex_matches(MACRO_PATTERN@, query@);
    let ghost wanted = requests_before(found, found.len());
    proof {
        if all_unknown(found) {
            lemma_unknown_macros_ask_nothing(found, found.len());
        }
    }
    while i < requests.len()
        invariant
            i <= requests.len(),
            answers.len() == i,
            found == regex_matches(MACRO_PATTERN@, query@),
            wanted == requests_before(found, found.len()),
            requests_view(requests@) == wanted,
            requests@.len() == wanted.len(),
            all_unknown(found) ==> wanted.len() == 0,
            regex_gaps(MACRO_PATTERN@, query@).len() == found.len() + 1,
            woven(regex_gaps(MACRO_PATTERN@, query@), written(found), found.len()) == query@,
            forall|k: int|
                0 <= k < i ==> is_answer(nominatim, wanted[k], Ok(#[trigger] answers@[k]@)),
        decreases requests.len() - i,
    {
        assert(wanted[i as int] == requests@[i as int]@);
        let answer = nominatim.search(requests[i].search.as_str(), requests[i].lang.as_str());
        assert(is_answer(
            nominatim,
            wanted[i as int],
            match answer {
                Ok(o) => Ok::<NominatimOuputView, NominatimErrorView>(o@),
                Err(e) => Err::<NominatimOuputView, NominatimErrorView>(e@),
            },
        ));
        match answer {
            Ok(answer) => {
                answers.push(answer);
            },
            Err(e) => {
                assert(failed_by(nominatim, found, e@)) by {
                    assert forall|k: int| 0 <= k < i implies answered(
                        nominatim,
                        #[trigger] wanted[k],
                    ) by {
                        assert(is_answer(nominatim, wanted[k], Ok(answers@[k]@)));
                    }
                    assert(is_answer(nominatim, wanted[i as int], Err(e@)));
                }
                return Err(GraphError::Nominatim(e));
            },
        }
        i += 1;
    }
    let suffixes = draw_suffixes(&calls, ids);
    let (text, areas) = expand(&gaps, &calls, bbox, timeout, &answers, &suffixes);
    proof {
        assert(suffixes@.len() == strings_view(suffixes@).len());
        assert(answers@.len() == answers_view(answers@).len());
        assert forall|k: int| 0 <= k < answers_view(answers@).len() implies is_answer(
            nominatim,
            wanted[k],
            Ok(#[trigger] answers_view(answers@)[k]),
        ) by {
            assert(answers_view(answers@)[k] == answers@[k]@);
        }
        assert(preprocessed_by(
            nominatim,
            regex_gaps(MACRO_PATTERN@, query@),
            regex_matches(MACRO_PATTERN@, query@),
            bbox@,
            timeout,
            *ids,
            answers_view(answers@),
            strings_view(suffixes@),
            text@,
            areas_view(areas@),
        ));
    }
    proof {
        if all_unknown(found) {
            law_unknown_macros_stay(
                regex_gaps(MACRO_PATTERN@, query@),
                found,
                bbox@,
                answers_view(answers@),
                strings_view(suffixes@),
                found.len(),
            );
            assert(areas_view(areas@).len() == areas@.len());
        }
    }
    let out = Ok((text, areas));
    assert(out->Ok_0.0@ == text@);
    assert(areas_view(out->Ok_0.1@) == areas_view(areas@));
    out
}

/// A query without a macro is framed and otherwise left as it is.
pub proof fn law_plain_query_is_framed(
    gaps: Seq<Seq<char>>,
    calls: Seq<MacroCallView>,
    bbox: BboxView,
    timeout: u32,
    answers: Seq<NominatimOuputView>,
    suffixes: Seq<Seq<char>>,
)
    requires
        calls.len() == 0,
    ensures
        preprocessed(gaps, calls, bbox, timeout, answers, suffixes) == header(timeout) + gaps[0]
            + footer(),
{
}

/// Macros that the preprocessor does not know stay as they are written:
/// where a query holds no other macro, its text is not changed.
pub proof fn law_unknown_macros_stay(
    gaps: Seq<Seq<char>>,
    calls: Seq<MacroCallView>,
    bbox: BboxView,
    answers: Seq<NominatimOuputView>,
    suffixes: Seq<Seq<char>>,
    n: nat,
)
    requires
        n <= calls.len(),
        forall|i: int| 0 <= i < n ==> kind_of(#[trigger] calls[i]) is Other,
    ensures
        expanded(gaps, calls, bbox, answers, suffixes, n) == woven(gaps, written(calls), n),
    decreases n,
{
    if n > 0 {
        law_unknown_macros_stay(gaps, calls, bbox, answers, suffixes, (n - 1) as nat);
        assert(kind_of(calls[n - 1]) is Other);
        assert(written(calls)[n - 1] == calls[n - 1].whole);
    }
}

/// The areas that come with a preprocessed query are those of the
/// geocoder's answers, in the order of the requests, one for each request.
pub proof fn law_one_area_for_each_request(
    calls: Seq<MacroCallView>,
    answers: Seq<NominatimOuputView>,
)
    requires
        answers.len() == requests_before(calls, calls.len()).len(),
    ensures
        answer_areas(answers).len() == requests_before(calls, calls.len()).len(),
        forall|k: int| 0 <= k < answers.len() ==> answer_areas(answers)[k] == answers[k].area,
{
}

} // verus!
