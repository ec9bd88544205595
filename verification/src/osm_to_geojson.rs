//! From the elements that the query service answers with to features.
//!
//! A node becomes a point and a way a line through those of its nodes that
//! the answer holds. A relation becomes the collection of what its members
//! become. An area becomes nothing.

use std::collections::BTreeMap;
use vstd::prelude::*;
use vstd::string::*;
use crate::geojson::Feature;
use crate::geojson::FeatureCollection;
use crate::geojson::FeatureView;
use crate::geojson::Geometry;
use crate::geojson::GeometryView;
use crate::geojson::Position;
use crate::geojson::Property;
use crate::geojson::PropertyValue;
use crate::geojson::PropertyValueView;
use crate::geojson::PropertyView;
use crate::geojson::copy_numbers;
use crate::geojson::copy_properties;
use crate::geojson::features_view;
use crate::geojson::lemma_features_view_push;
use crate::geojson::properties_view;
use crate::text::text_is;

verus! {

broadcast use vstd::std_specs::btree::group_btree_axioms;

/// The tags of an element as they were decoded.
#[derive(Debug, PartialEq)]
pub enum Tags {
    /// The element has no tags.
    Missing,
    /// The tags, by key.
    Object(Vec<Property>),
    /// What stands for the tags is no object.
    Other,
}

/// A point, with its latitude and longitude as bit patterns of binary64
/// numbers.
#[derive(Debug, PartialEq)]
pub struct Node {
    pub id: u64,
    pub lat: u64,
    pub lon: u64,
    pub tags: Tags,
}

/// An ordered list of nodes, each by its identifier.
#[derive(Debug, PartialEq)]
pub struct Way {
    pub id: u64,
    pub nodes: Vec<u64>,
    pub tags: Tags,
}

/// A group of elements.
#[derive(Debug, PartialEq)]
pub struct Relation {
    pub id: u64,
    pub tags: Tags,
    pub members: Vec<Element>,
}

#[derive(Debug, PartialEq)]
pub struct Area {
    pub id: u64,
    pub tags: Tags,
}

#[derive(Debug, PartialEq)]
pub enum Element {
    Node(Node),
    Way(Way),
    Relation(Relation),
    Area(Area),
}

/// An answer of the query service, as far as the library reads it.
#[derive(Debug, PartialEq)]
pub struct Osm {
    pub elements: Vec<Element>,
}

/// The identifier of the element `el`.
pub open spec fn element_id(el: Element) -> u64 {
    match el {
        Element::Node(n) => n.id,
        Element::Way(n) => n.id,
        Element::Relation(n) => n.id,
        Element::Area(n) => n.id,
    }
}

/// The name of the type of the element `el`.
pub open spec fn element_type(el: Element) -> Seq<char> {
    match el {
        Element::Node(_) => "node"@,
        Element::Way(_) => "way"@,
        Element::Relation(_) => "relation"@,
        Element::Area(_) => "area"@,
    }
}

/// The tags of the element `el`.
pub open spec fn element_tags(el: Element) -> Tags {
    match el {
        Element::Node(n) => n.tags,
        Element::Way(n) => n.tags,
        Element::Relation(n) => n.tags,
        Element::Area(n) => n.tags,
    }
}

impl Element {
    pub fn tags(&self) -> (tags: &Tags)
        ensures
            *tags == element_tags(*self),
    {
        match self {
            Element::Node(n) => &n.tags,
            Element::Way(n) => &n.tags,
            Element::Relation(n) => &n.tags,
            Element::Area(n) => &n.tags,
        }
    }

    pub fn id(&self) -> (id: u64)
        ensures
            id == element_id(*self),
    {
        match self {
            Element::Node(n) => n.id,
            Element::Way(n) => n.id,
            Element::Relation(n) => n.id,
            Element::Area(n) => n.id,
        }
    }

    pub fn osm_type(&self) -> (name: &'static str)
        ensures
            name@ == element_type(*self),
    {
        match self {
            Element::Node(_) => "node",
            Element::Way(_) => "way",
            Element::Relation(_) => "relation",
            Element::Area(_) => "area",
        }
    }
}

/// The position of each node among the first `n` of `elements`, by the
/// node's identifier. Where two nodes share an identifier, the later one
/// counts.
pub open spec fn node_positions(elements: Seq<Element>, n: nat) -> Map<u64, Position>
    decreases n,
{
    if n == 0 {
        Map::empty()
    } else {
        let before = node_positions(elements, (n - 1) as nat);
        match elements[n - 1] {
            Element::Node(node) => before.insert(node.id, Position { lng: node.lon, lat: node.lat }),
            _ => before,
        }
    }
}

/// `ways` with the first `k` of `refs` set to `way`.
pub open spec fn with_way(ways: Map<u64, u64>, refs: Seq<u64>, way: u64, k: nat) -> Map<u64, u64>
    decreases k,
{
    if k == 0 {
        ways
    } else {
        with_way(ways, refs, way, (k - 1) as nat).insert(refs[k - 1], way)
    }
}

/// For each node that a way among the first `n` of `elements` refers to, a
/// way that does, by the node's identifier. Where several ways refer to a
/// node, the last one counts.
pub open spec fn node_ways(elements: Seq<Element>, n: nat) -> Map<u64, u64>
    decreases n,
{
    if n == 0 {
        Map::empty()
    } else {
        let before = node_ways(elements, (n - 1) as nat);
        match elements[n - 1] {
            Element::Way(way) => with_way(before, way.nodes@, way.id, way.nodes@.len()),
            _ => before,
        }
    }
}

/// The positions of those of the first `k` of `refs` that `positions`
/// knows, in order.
pub open spec fn resolved(refs: Seq<u64>, positions: Map<u64, Position>, k: nat) -> Seq<Position>
    decreases k,
{
    if k == 0 {
        Seq::empty()
    } else {
        let before = resolved(refs, positions, (k - 1) as nat);
        if positions.contains_key(refs[k - 1]) {
            before.push(positions[refs[k - 1]])
        } else {
            before
        }
    }
}

/// The geometry of the element `el`: a node's is its own position, a way's
/// the line through those of its nodes that `positions` knows, a
/// relation's the collection of the geometries that its members have, and
/// an area has none.
pub open spec fn element_geometry(el: Element, positions: Map<u64, Position>) -> Option<
    GeometryView,
>
    decreases el, 0nat,
{
    match el {
        Element::Node(node) => Some(
            GeometryView::Point(Position { lng: node.lon, lat: node.lat }),
        ),
        Element::Way(way) => Some(
            GeometryView::LineString(resolved(way.nodes@, positions, way.nodes@.len())),
        ),
        Element::Relation(rel) => Some(
            GeometryView::GeometryCollection(
                member_geometries(rel.members@, positions, rel.members@.len()),
            ),
        ),
        Element::Area(_) => None,
    }
}

/// The geometries of those of the first `k` of `members` that have one, in
/// order.
pub open spec fn member_geometries(
    members: Seq<Element>,
    positions: Map<u64, Position>,
    k: nat,
) -> Seq<GeometryView>
    decreases members, k,
{
    if k == 0 || k > members.len() {
        Seq::empty()
    } else {
        let before = member_geometries(members, positions, (k - 1) as nat);
        match element_geometry(members[k - 1], positions) {
            Some(g) => before.push(g),
            None => before,
        }
    }
}

/// Converts an element to its geometry.
pub fn element_to_geometry(el: &Element, node_map: &BTreeMap<u64, Position>) -> (out: Option<
    Geometry,
>)
    ensures
        match out {
            Some(g) => element_geometry(*el, node_map@) == Some(g@),
            None => element_geometry(*el, node_map@) is None,
        },
    decreases el,
{
    match el {
        Element::Node(node) => Some(Geometry::Point(Position { lng: node.lon, lat: node.lat })),
        Element::Way(way) => {
            let mut line: Vec<Position> = Vec::new();
            let mut k: usize = 0;
            while k < way.nodes.len()
                invariant
                    k <= way.nodes.len(),
                    line@ == resolved(way.nodes@, node_map@, k as nat),
                decreases way.nodes.len() - k,
            {
                let id = way.nodes[k];
                match node_map.get(&id) {
                    Some(p) => {
                        line.push(*p);
                    },
                    None => {},
                }
                k += 1;
            }
            Some(Geometry::LineString(line))
        },
        Element::Relation(rel) => {
            let mut parts: Vec<Geometry> = Vec::new();
            let mut k: usize = 0;
            while k < rel.members.len()
                invariant
                    k <= rel.members.len(),
                    decreases_to!(el => rel.members),
                    parts@.len() == member_geometries(rel.members@, node_map@, k as nat).len(),
                    forall|i: int|
                        0 <= i < parts@.len() ==> (#[trigger] parts@[i])@ == member_geometries(
                            rel.members@,
                            node_map@,
                            k as nat,
                        )[i],
                decreases rel.members.len() - k,
            {
                match element_to_geometry(&rel.members[k], node_map) {
                    Some(g) => {
                        parts.push(g);
                    },
                    None => {},
                }
                k += 1;
            }
            let out = Geometry::GeometryCollection(parts);
            assert(out@->GeometryCollection_0 =~= member_geometries(
                rel.members@,
                node_map@,
                rel.members@.len(),
            ));
            Some(out)
        },
        Element::Area(_) => None,
    }
}

/// Where the first property with the key `key` stands among `props`.
pub open spec fn key_index(props: Seq<PropertyView>, key: Seq<char>) -> Option<int>
    decreases props.len(),
{
    if props.len() == 0 {
        None
    } else {
        match key_index(props.drop_last(), key) {
            Some(i) => Some(i),
            None => if props.last().key == key {
                Some(props.len() - 1)
            } else {
                None
            },
        }
    }
}

/// `props` with the property `key` set to `value`: in the place of the
/// first property with that key, or at the end where there is none.
pub open spec fn inserted(props: Seq<PropertyView>, key: Seq<char>, value: PropertyValueView) -> Seq<
    PropertyView,
> {
    match key_index(props, key) {
        Some(i) => props.update(i, PropertyView { key, value }),
        None => props.push(PropertyView { key, value }),
    }
}

/// The first property with a key is found where it stands, and none where
/// no property has the key.
pub proof fn lemma_key_index(props: Seq<PropertyView>, key: Seq<char>)
    ensures
        match key_index(props, key) {
            Some(i) => 0 <= i < props.len() && props[i].key == key && forall|j: int|
                0 <= j < i ==> props[j].key != key,
            None => forall|j: int| 0 <= j < props.len() ==> props[j].key != key,
        },
    decreases props.len(),
{
    if props.len() > 0 {
        lemma_key_index(props.drop_last(), key);
        assert(forall|j: int| 0 <= j < props.len() - 1 ==> props.drop_last()[j] == props[j]);
    }
}

/// Sets the property `key` of `props` to `value`.
pub fn insert_property(props: &mut Vec<Property>, key: &str, value: PropertyValue)
    ensures
        properties_view(final(props)@) == inserted(properties_view(old(props)@), key@, value@),
{
    let ghost before = properties_view(props@);
    proof {
        lemma_key_index(before, key@);
    }
    let mut i: usize = 0;
    while i < props.len()
        invariant
            i <= props.len(),
            props@ == old(props)@,
            before == properties_view(props@),
            forall|j: int| 0 <= j < i ==> before[j].key != key@,
        decreases props.len() - i,
    {
        if text_is(props[i].key.as_str(), key) {
            proof {
                lemma_key_index(before, key@);
            }
            let replacement = Property { key: String::from_str(key), value };
            props.set(i, replacement);
            assert(properties_view(props@) =~= inserted(before, key@, value@));
            return ;
        }
        assert(before[i as int].key != key@);
        i += 1;
    }
    proof {
        lemma_key_index(before, key@);
    }
    let added = Property { key: String::from_str(key), value };
    props.push(added);
    assert(properties_view(props@) =~= inserted(before, key@, value@));
}

/// The properties of the feature for the element `el`: its tags, then its
/// identifier as `osm_id` and its type as `osm_type`; for a way also the
/// identifiers of its nodes as `__children_ids`, and for a node also the
/// way that `ways` knows for it as `__way_id`. Where what stands for the
/// tags is no object, the feature has no properties.
pub open spec fn element_properties(el: Element, ways: Map<u64, u64>) -> Option<Seq<PropertyView>> {
    match element_tags(el) {
        Tags::Other => None,
        tags => {
            let own = match tags {
                Tags::Object(p) => properties_view(p@),
                _ => Seq::empty(),
            };
            let named = inserted(
                inserted(own, "osm_id"@, PropertyValueView::Number(element_id(el))),
                "osm_type"@,
                PropertyValueView::Text(element_type(el)),
            );
            Some(
                match el {
                    Element::Way(way) => inserted(
                        named,
                        "__children_ids"@,
                        PropertyValueView::Numbers(way.nodes@),
                    ),
                    Element::Node(node) => if ways.contains_key(node.id) {
                        inserted(named, "__way_id"@, PropertyValueView::Number(ways[node.id]))
                    } else {
                        named
                    },
                    _ => named,
                },
            )
        },
    }
}

/// The feature for the element `el`, where it has a geometry: the geometry,
/// the element's identifier and its properties.
pub open spec fn element_feature(
    el: Element,
    positions: Map<u64, Position>,
    ways: Map<u64, u64>,
) -> Option<FeatureView> {
    match element_geometry(el, positions) {
        Some(g) => Some(
            FeatureView {
                id: Some(element_id(el)),
                geometry: Some(g),
                properties: element_properties(el, ways),
            },
        ),
        None => None,
    }
}

/// Converts an element to a feature. An area gives none.
pub fn element_to_feature(
    el: &Element,
    node_map: &BTreeMap<u64, Position>,
    way_map: &BTreeMap<u64, u64>,
) -> (out: Option<Feature>)
    ensures
        match out {
            Some(f) => element_feature(*el, node_map@, way_map@) == Some(f@),
            None => element_feature(*el, node_map@, way_map@) is None,
        },
{
    let geometry = match element_to_geometry(el, node_map) {
        Some(g) => g,
        None => {
            return None;
        },
    };
    let mut props = match el.tags() {
        Tags::Other => {
            return Some(Feature { id: Some(el.id()), geometry: Some(geometry), properties: None });
        },
        Tags::Object(p) => copy_properties(p),
        Tags::Missing => {
            let empty: Vec<Property> = Vec::new();
            assert(properties_view(empty@) =~= Seq::<PropertyView>::empty());
            empty
        },
    };
    insert_property(&mut props, "osm_id", PropertyValue::Number(el.id()));
    insert_property(
        &mut props,
        "osm_type",
        PropertyValue::Text(String::from_str(el.osm_type())),
    );
    match el {
        Element::Way(way) => {
            insert_property(
                &mut props,
                "__children_ids",
                PropertyValue::Numbers(copy_numbers(&way.nodes)),
            );
        },
        Element::Node(node) => {
            match way_map.get(&node.id) {
                Some(way_id) => {
                    insert_property(&mut props, "__way_id", PropertyValue::Number(*way_id));
                },
                None => {},
            }
        },
        _ => {},
    }
    Some(Feature { id: Some(el.id()), geometry: Some(geometry), properties: Some(props) })
}

/// The features for those of the first `n` of `elements` that have one, in
/// order.
pub open spec fn converted(
    elements: Seq<Element>,
    positions: Map<u64, Position>,
    ways: Map<u64, u64>,
    n: nat,
) -> Seq<FeatureView>
    decreases n,
{
    if n == 0 {
        Seq::empty()
    } else {
        let before = converted(elements, positions, ways, (n - 1) as nat);
        match element_feature(elements[n - 1], positions, ways) {
            Some(f) => before.push(f),
            None => before,
        }
    }
}

/// The features that `elements` come to. Nodes are looked up, and ways
/// recorded, among `elements` themselves, not among the members of
/// relations.
pub open spec fn osm_features(elements: Seq<Element>) -> Seq<FeatureView> {
    converted(
        elements,
        node_positions(elements, elements.len()),
        node_ways(elements, elements.len()),
        elements.len(),
    )
}

/// Converts an answer of the query service to features.
pub fn osm_to_geojson(osm: Osm) -> (out: FeatureCollection)
    ensures
        out@ == osm_features(osm.elements@),
{
    let mut node_map: BTreeMap<u64, Position> = BTreeMap::new();
    let mut way_map: BTreeMap<u64, u64> = BTreeMap::new();
    let mut i: usize = 0;
    while i < osm.elements.len()
        invariant
            i <= osm.elements.len(),
            node_map@ == node_positions(osm.elements@, i as nat),
            way_map@ == node_ways(osm.elements@, i as nat),
        decreases osm.elements.len() - i,
    {
        match &osm.elements[i] {
            Element::Node(node) => {
                node_map.insert(node.id, Position { lng: node.lon, lat: node.lat });
            },
            Element::Way(way) => {
                let ghost before = way_map@;
                let mut k: usize = 0;
                while k < way.nodes.len()
                    invariant
                        k <= way.nodes.len(),
                        way_map@ == with_way(before, way.nodes@, way.id, k as nat),
                    decreases way.nodes.len() - k,
                {
                    way_map.insert(way.nodes[k], way.id);
                    k += 1;
                }
            },
            _ => {},
        }
        i += 1;
    }
    let mut features: Vec<Feature> = Vec::new();
    let mut j: usize = 0;
    assert(features_view(features@) =~= converted(osm.elements@, node_map@, way_map@, 0));
    while j < osm.elements.len()
        invariant
            j <= osm.elements.len(),
            features_view(features@) == converted(osm.elements@, node_map@, way_map@, j as nat),
        decreases osm.elements.len() - j,
    {
        match element_to_feature(&osm.elements[j], &node_map, &way_map) {
            Some(f) => {
                proof {
                    lemma_features_view_push(features@, f);
                }
                features.push(f);
            },
            None => {},
        }
        j += 1;
    }
    FeatureCollection { features }
}

} // verus!
