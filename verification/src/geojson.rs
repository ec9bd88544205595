//! Features as the library holds them: geometry, identifier and properties.
//!
//! Coordinates are carried as bit patterns. The library copies and compares
//! them but never computes with them; whoever needs the numbers converts at
//! the edge.

use vstd::prelude::*;

verus! {

/// `serde_json::Value`: a tag value is carried through as it was decoded.
/// The library looks at nothing inside it.
#[verifier::external_type_specification]
#[verifier::external_body]
pub struct ExJsonValue(serde_json::Value);

/// `serde_json::Value::clone` returns a value equal to the one it was given.
pub assume_specification[ <serde_json::Value as Clone>::clone ](v: &serde_json::Value) -> (res:
    serde_json::Value)
    ensures
        res == *v,
;

/// A coordinate pair: longitude, then latitude, each as the bit pattern of a
/// binary64 number.
#[derive(Clone, Copy, Debug, PartialEq, Eq, Structural)]
pub struct Position {
    pub lng: u64,
    pub lat: u64,
}

#[derive(Debug, PartialEq)]
pub enum Geometry {
    Point(Position),
    LineString(Vec<Position>),
    GeometryCollection(Vec<Geometry>),
}

/// What a [`Geometry`] is, as a mathematical value.
pub enum GeometryView {
    Point(Position),
    LineString(Seq<Position>),
    GeometryCollection(Seq<GeometryView>),
}

impl View for Geometry {
    type V = GeometryView;

    open spec fn view(&self) -> GeometryView
        decreases self,
    {
        match self {
            Geometry::Point(p) => GeometryView::Point(*p),
            Geometry::LineString(line) => GeometryView::LineString(line@),
            Geometry::GeometryCollection(parts) => GeometryView::GeometryCollection(
                Seq::new(
                    parts@.len(),
                    |i: int|
                        if 0 <= i < parts@.len() {
                            parts@[i].view()
                        } else {
                            GeometryView::GeometryCollection(Seq::empty())
                        },
                ),
            ),
        }
    }
}


impl Geometry {
    /// A copy of this geometry.
    pub fn duplicate(&self) -> (copy: Geometry)
        ensures
            copy@ == self@,
        decreases self,
    {
        match self {
            Geometry::Point(p) => Geometry::Point(*p),
            Geometry::LineString(line) => {
                let copy = copy_positions(line, 0, line.len());
                assert(copy@ =~= line@);
                Geometry::LineString(copy)
            },
            Geometry::GeometryCollection(parts) => {
                let mut copies: Vec<Geometry> = Vec::new();
                let mut i: usize = 0;
                while i < parts.len()
                    invariant
                        i <= parts.len(),
                        copies.len() == i,
                        decreases_to!(self => parts),
                        forall|j: int| 0 <= j < i ==> copies@[j]@ == parts@[j]@,
                    decreases parts.len() - i,
                {
                    let part = parts[i].duplicate();
                    copies.push(part);
                    i += 1;
                }
                let copy = Geometry::GeometryCollection(copies);
                assert(copy@->GeometryCollection_0 =~= self@->GeometryCollection_0);
                copy
            },
        }
    }
}

/// The positions `line[start..end]`, in a vector of their own.
pub fn copy_positions(line: &Vec<Position>, start: usize, end: usize) -> (copy: Vec<Position>)
    requires
        start <= end <= line.len(),
    ensures
        copy@ == line@.subrange(start as int, end as int),
{
    let mut copy: Vec<Position> = Vec::new();
    let mut i: usize = start;
    while i < end
        invariant
            start <= i <= end <= line.len(),
            copy@ == line@.subrange(start as int, i as int),
        decreases end - i,
    {
        copy.push(line[i]);
        i += 1;
        assert(copy@ =~= line@.subrange(start as int, i as int));
    }
    copy
}

/// The value of one property of a feature.
#[derive(Debug, PartialEq)]
pub enum PropertyValue {
    /// A tag value, carried through as it was decoded.
    Tag(serde_json::Value),
    Number(u64),
    Text(String),
    Numbers(Vec<u64>),
}

pub enum PropertyValueView {
    Tag(serde_json::Value),
    Number(u64),
    Text(Seq<char>),
    Numbers(Seq<u64>),
}

impl View for PropertyValue {
    type V = PropertyValueView;

    open spec fn view(&self) -> PropertyValueView {
        match self {
            PropertyValue::Tag(v) => PropertyValueView::Tag(*v),
            PropertyValue::Number(n) => PropertyValueView::Number(*n),
            PropertyValue::Text(t) => PropertyValueView::Text(t@),
            PropertyValue::Numbers(ns) => PropertyValueView::Numbers(ns@),
        }
    }
}

impl PropertyValue {
    /// A copy of this value.
    pub fn duplicate(&self) -> (copy: PropertyValue)
        ensures
            copy@ == self@,
    {
        match self {
            PropertyValue::Tag(v) => PropertyValue::Tag(v.clone()),
            PropertyValue::Number(n) => PropertyValue::Number(*n),
            PropertyValue::Text(t) => PropertyValue::Text(t.clone()),
            PropertyValue::Numbers(ns) => PropertyValue::Numbers(copy_numbers(ns)),
        }
    }
}

/// The numbers of `ns`, in a vector of their own.
pub fn copy_numbers(ns: &Vec<u64>) -> (copy: Vec<u64>)
    ensures
        copy@ == ns@,
{
    let mut copy: Vec<u64> = Vec::new();
    let mut i: usize = 0;
    while i < ns.len()
        invariant
            i <= ns.len(),
            copy@ == ns@.subrange(0, i as int),
        decreases ns.len() - i,
    {
        copy.push(ns[i]);
        i += 1;
        assert(copy@ =~= ns@.subrange(0, i as int));
    }
    assert(copy@ =~= ns@);
    copy
}

/// A named property of a feature.
#[derive(Debug, PartialEq)]
pub struct Property {
    pub key: String,
    pub value: PropertyValue,
}

pub struct PropertyView {
    pub key: Seq<char>,
    pub value: PropertyValueView,
}

impl View for Property {
    type V = PropertyView;

    open spec fn view(&self) -> PropertyView {
        PropertyView { key: self.key@, value: self.value@ }
    }
}

/// The properties `s`, each by its view.
pub open spec fn properties_view(s: Seq<Property>) -> Seq<PropertyView> {
    s.map_values(|p: Property| p@)
}

/// A copy of the properties `props`.
pub fn copy_properties(props: &Vec<Property>) -> (copy: Vec<Property>)
    ensures
        properties_view(copy@) == properties_view(props@),
{
    let mut copy: Vec<Property> = Vec::new();
    let mut i: usize = 0;
    while i < props.len()
        invariant
            i <= props.len(),
            copy.len() == i,
            forall|j: int| 0 <= j < i ==> copy@[j]@ == props@[j]@,
        decreases props.len() - i,
    {
        let p = Property { key: props[i].key.clone(), value: props[i].value.duplicate() };
        copy.push(p);
        i += 1;
    }
    assert(properties_view(copy@) =~= properties_view(props@));
    copy
}

/// A feature: an optional identifier, an optional geometry and optional
/// properties.
#[derive(Debug, PartialEq)]
pub struct Feature {
    pub id: Option<u64>,
    pub geometry: Option<Geometry>,
    pub properties: Option<Vec<Property>>,
}

pub struct FeatureView {
    pub id: Option<u64>,
    pub geometry: Option<GeometryView>,
    pub properties: Option<Seq<PropertyView>>,
}

impl View for Feature {
    type V = FeatureView;

    open spec fn view(&self) -> FeatureView {
        FeatureView {
            id: self.id,
            geometry: match self.geometry {
                Some(g) => Some(g@),
                None => None,
            },
            properties: match self.properties {
                Some(p) => Some(properties_view(p@)),
                None => None,
            },
        }
    }
}

/// A copy of the optional properties `props`.
pub fn copy_optional_properties(props: &Option<Vec<Property>>) -> (copy: Option<Vec<Property>>)
    ensures
        copy is Some == props is Some,
        props is Some ==> properties_view(copy->0@) == properties_view(props->0@),
{
    match props {
        Some(p) => Some(copy_properties(p)),
        None => None,
    }
}

impl Feature {
    /// A copy of this feature.
    pub fn duplicate(&self) -> (copy: Feature)
        ensures
            copy@ == self@,
    {
        let geometry = match &self.geometry {
            Some(g) => Some(g.duplicate()),
            None => None,
        };
        Feature {
            id: self.id,
            geometry,
            properties: copy_optional_properties(&self.properties),
        }
    }
}

/// The features `s`, each by its view.
pub open spec fn features_view(s: Seq<Feature>) -> Seq<FeatureView> {
    s.map_values(|f: Feature| f@)
}

/// An ordered collection of features.
#[derive(Debug, PartialEq)]
pub struct FeatureCollection {
    pub features: Vec<Feature>,
}

impl View for FeatureCollection {
    type V = Seq<FeatureView>;

    open spec fn view(&self) -> Seq<FeatureView> {
        features_view(self.features@)
    }
}

impl FeatureCollection {
    /// The collection without features.
    pub fn empty() -> (collection: FeatureCollection)
        ensures
            collection@ == Seq::<FeatureView>::empty(),
    {
        let collection = FeatureCollection { features: Vec::new() };
        assert(collection@ =~= Seq::<FeatureView>::empty());
        collection
    }

    /// A copy of this collection.
    pub fn duplicate(&self) -> (copy: FeatureCollection)
        ensures
            copy@ == self@,
    {
        let mut features: Vec<Feature> = Vec::new();
        append_copies(&mut features, &self.features);
        let copy = FeatureCollection { features };
        assert(copy@ =~= self@);
        copy
    }
}

/// Appends a copy of each feature of `from` to `to`, in order.
pub fn append_copies(to: &mut Vec<Feature>, from: &Vec<Feature>)
    ensures
        features_view(final(to)@) == features_view(old(to)@) + features_view(from@),
{
    let mut i: usize = 0;
    while i < from.len()
        invariant
            i <= from.len(),
            features_view(to@) == features_view(old(to)@) + features_view(
                from@.subrange(0, i as int),
            ),
        decreases from.len() - i,
    {
        let ghost before = to@;
        let f = from[i].duplicate();
        to.push(f);
        i += 1;
        assert(features_view(to@) =~= features_view(old(to)@) + features_view(
            from@.subrange(0, i as int),
        )) by {
            assert(to@ == before.push(f));
            assert(features_view(before.push(f)) =~= features_view(before).push(f@));
            assert(from@.subrange(0, i as int) =~= from@.subrange(0, i - 1).push(from@[i - 1]));
            assert(features_view(from@.subrange(0, i - 1).push(from@[i - 1])) =~= features_view(
                from@.subrange(0, i - 1),
            ).push(from@[i - 1]@));
        }
    }
    assert(from@.subrange(0, i as int) =~= from@);
}

/// The view of a sequence of features with one more is the view of the
/// sequence with one more.
pub proof fn lemma_features_view_push(s: Seq<Feature>, f: Feature)
    ensures
        features_view(s.push(f)) == features_view(s).push(f@),
{
    assert(features_view(s.push(f)) =~= features_view(s).push(f@));
}

/// The view of the first `n + 1` features is the view of the first `n` with
/// the view of the next.
pub proof fn lemma_features_view_step(s: Seq<Feature>, n: int)
    requires
        0 <= n < s.len(),
    ensures
        features_view(s.subrange(0, n + 1)) == features_view(s.subrange(0, n)).push(s[n]@),
        features_view(s.subrange(0, n + 1)).drop_last() == features_view(s.subrange(0, n)),
        features_view(s.subrange(0, n + 1)).last() == s[n]@,
{
    assert(s.subrange(0, n + 1) =~= s.subrange(0, n).push(s[n]));
    lemma_features_view_push(s.subrange(0, n), s[n]);
    assert(features_view(s.subrange(0, n)).push(s[n]@).drop_last() =~= features_view(
        s.subrange(0, n),
    ));
}

} // verus!
