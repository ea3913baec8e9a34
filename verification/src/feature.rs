//! Features, and how a node or a way becomes one.

use crate::decimal::{decimal, push_decimal};
use crate::filter::{filters_match, matches_tag_filters, FilterMap, TagFilters};
use crate::json::{json_members, string_members, string_to_json, JsonMembers};
use crate::osm::{is_closed, Coord, Node, Way};
use crate::tags::{lists_tags, tag_entries, tags_view};
use osmpbfreader::Tags;
use std::collections::HashMap;
use vstd::prelude::*;

verus! {

/// A JSON object with string keys.
pub type JsonObject = serde_json::Map<String, serde_json::Value>;

/// The coordinates of nodes by their identifiers.
pub type NodeToCoords = HashMap<i64, Coord>;

/// The shape of a feature.
#[derive(Debug, PartialEq)]
pub enum Geometry {
    /// One position.
    Point(Coord),
    /// An area bounded by rings, each a sequence of positions.
    Polygon(Vec<Vec<Coord>>),
}

/// A GeoJSON feature: an identifier, a shape and properties.
#[derive(Debug, PartialEq)]
pub struct Feature {
    /// The identifier: `node/` or `way/` and the number of the object.
    pub id: String,
    /// The shape.
    pub geometry: Geometry,
    /// The properties, a JSON object.
    pub properties: Option<JsonObject>,
}

/// What a `Geometry` holds.
pub ghost enum GeometryModel {
    Point(Coord),
    Polygon(Seq<Seq<Coord>>),
}

/// What a `Feature` holds.
pub ghost struct FeatureModel {
    pub id: Seq<char>,
    pub geometry: GeometryModel,
    pub properties: Option<JsonMembers>,
}

impl View for Geometry {
    type V = GeometryModel;

    open spec fn view(&self) -> GeometryModel {
        match *self {
            Geometry::Point(coord) => GeometryModel::Point(coord),
            Geometry::Polygon(rings) => GeometryModel::Polygon(rings@.map_values(|ring: Vec<Coord>| ring@)),
        }
    }
}

impl View for Feature {
    type V = FeatureModel;

    open spec fn view(&self) -> FeatureModel {
        FeatureModel {
            id: self.id@,
            geometry: self.geometry@,
            properties: match self.properties {
                Some(object) => Some(json_members(object)),
                None => None,
            },
        }
    }
}

/// Why an object could not be turned into a feature.
#[derive(Clone, Copy, Debug, PartialEq, Eq, Structural)]
pub enum ConvertError {
    /// The closed way `way` runs through `node`, whose position is not known.
    MissingNode { way: i64, node: i64 },
    /// A relation was met. Relations are to be left out before objects are
    /// turned into features.
    UnexpectedRelation { relation: i64 },
}

impl ConvertError {
    /// The error in words.
    pub fn message(&self) -> (text: &'static str)
        ensures
            self is MissingNode ==> text@ == "Could not find node in way"@,
            self is UnexpectedRelation ==> text@ == "Found relation when excluded"@,
    {
        match self {
            ConvertError::MissingNode { .. } => "Could not find node in way",
            ConvertError::UnexpectedRelation { .. } => "Found relation when excluded",
        }
    }
}

/// How turning an object into a feature ends: with the feature, with none
/// where the object gives none, or with an error.
pub type Outcome = Result<Option<Feature>, ConvertError>;

/// What an `Outcome` holds.
pub type OutcomeModel = Result<Option<FeatureModel>, ConvertError>;

/// What a feature or none holds.
pub open spec fn option_view(made: Option<Feature>) -> Option<FeatureModel> {
    match made {
        Some(feature) => Some(feature@),
        None => None,
    }
}

/// What the outcome of turning an object into a feature holds.
pub open spec fn outcome_view(outcome: Outcome) -> OutcomeModel {
    match outcome {
        Ok(made) => Ok(option_view(made)),
        Err(error) => Err(error),
    }
}

/// The feature of a node: a point where the node lies, with the node's tags
/// as properties.
pub open spec fn point_feature(node: Node) -> FeatureModel {
    FeatureModel {
        id: "node/"@ + decimal(node.id as int),
        geometry: GeometryModel::Point(node.coord()),
        properties: Some(string_members(tags_view(node.tags))),
    }
}

/// The feature of a node under `filters`: its point feature where its tags
/// pass them, none where they do not.
pub open spec fn node_outcome(node: Node, filters: FilterMap) -> Option<FeatureModel> {
    if filters_match(filters, tags_view(node.tags)) {
        Some(point_feature(node))
    } else {
        None
    }
}

/// How many nodes at the start of `nodes` have a position in `coords`: the
/// place of the first that has none, or `nodes.len()`.
pub open spec fn resolved_len(nodes: Seq<i64>, coords: Map<i64, Coord>) -> nat
    decreases nodes.len(),
{
    if nodes.len() == 0 || !coords.contains_key(nodes[0]) {
        0
    } else {
        1 + resolved_len(nodes.drop_first(), coords)
    }
}

/// The positions of `nodes` in `coords`, index for index.
pub open spec fn ring_of(nodes: Seq<i64>, coords: Map<i64, Coord>) -> Seq<Coord> {
    Seq::new(nodes.len(), |i: int| coords[nodes[i]])
}

/// The feature of a closed way: a polygon of one ring, which holds the
/// position of each node of the way in the way's order, the closing node
/// again at the end; the way's tags are the properties.
pub open spec fn polygon_feature(way: Way, coords: Map<i64, Coord>) -> FeatureModel {
    FeatureModel {
        id: "way/"@ + decimal(way.id as int),
        geometry: GeometryModel::Polygon(seq![ring_of(way.nodes@, coords)]),
        properties: Some(string_members(tags_view(way.tags))),
    }
}

/// What becomes of a way, given the positions `coords`: nothing where it is
/// open; an error that names its first node without a position where there
/// is one; else its polygon feature.
pub open spec fn way_outcome(way: Way, coords: Map<i64, Coord>) -> OutcomeModel {
    let resolved = resolved_len(way.nodes@, coords) as int;
    if !is_closed(way.nodes@) {
        Ok(None)
    } else if resolved < way.nodes@.len() {
        Err(ConvertError::MissingNode { way: way.id, node: way.nodes@[resolved] })
    } else {
        Ok(Some(polygon_feature(way, coords)))
    }
}

/// `resolved_len` is the place of the first node without a position.
pub proof fn lemma_resolved_len(nodes: Seq<i64>, coords: Map<i64, Coord>, n: int)
    requires
        0 <= n <= nodes.len(),
        forall|k: int| 0 <= k < n ==> coords.contains_key(nodes[k]),
        n < nodes.len() ==> !coords.contains_key(nodes[n]),
    ensures
        resolved_len(nodes, coords) == n,
    decreases n,
{
    if n > 0 {
        lemma_resolved_len(nodes.drop_first(), coords, n - 1);
    }
}

/// Where the node lies.
pub fn node_to_point(node: &Node) -> (point: Coord)
    ensures
        point == node.coord(),
{
    Coord { decimicro_lon: node.decimicro_lon, decimicro_lat: node.decimicro_lat }
}

/// The tags as the properties of a feature: a JSON object with one string
/// member for each tag.
pub fn tags_to_props(tags: &Tags) -> (props: Option<JsonObject>)
    ensures
        props matches Some(object) && json_members(object) == string_members(tags_view(*tags)),
{
    let entries = tag_entries(tags);
    let mut properties = serde_json::Map::new();
    let mut i: usize = 0;
    while i < entries.len()
        invariant
            i <= entries.len(),
            lists_tags(entries@, tags_view(*tags)),
            forall|key: Seq<char>|
                json_members(properties).contains_key(key) <==> exists|k: int|
                    0 <= k < i && (#[trigger] entries@[k]).0@ == key,
            forall|key: Seq<char>| #[trigger]
                json_members(properties).contains_key(key) ==> json_members(properties)[key] == Some(
                    tags_view(*tags)[key],
                ),
        decreases entries.len() - i,
    {
        let (tag, value) = entries[i];
        match string_to_json(value) {
            Ok(json) => {
                properties.insert(tag.clone(), json);
            },
            // Not reached: every string has a JSON value.
            Err(_) => {
                return None;
            },
        }
        i += 1;
    }
    Some(properties)
}

/// The feature of a node whose tags pass `tag_filters`; none for another
/// node.
pub fn node_to_feature(node: &Node, tag_filters: &TagFilters) -> (made: Option<Feature>)
    ensures
        option_view(made) == node_outcome(*node, tag_filters@),
{
    if !matches_tag_filters(tag_filters, &node.tags) {
        return None;
    }
    let point = node_to_point(node);
    let mut id = "node/".to_owned();
    push_decimal(&mut id, node.id);
    Some(Feature { id, geometry: Geometry::Point(point), properties: tags_to_props(&node.tags) })
}

/// The feature of a closed way, with the positions of its nodes taken from
/// `dep_nodes`; none for an open way; an error where `dep_nodes` lacks a
/// node of a closed way.
pub fn way_to_feature(way: Way, dep_nodes: &NodeToCoords) -> (outcome: Outcome)
    ensures
        outcome_view(outcome) == way_outcome(way, dep_nodes@),
{
    if way.is_open() {
        return Ok(None);
    }
    let mut ring: Vec<Coord> = Vec::new();
    let mut i: usize = 0;
    while i < way.nodes.len()
        invariant
            i <= way.nodes.len(),
            is_closed(way.nodes@),
            ring@ == ring_of(way.nodes@.take(i as int), dep_nodes@),
            forall|k: int| 0 <= k < i ==> dep_nodes@.contains_key(way.nodes@[k]),
        decreases way.nodes.len() - i,
    {
        let node = way.nodes[i];
        match dep_nodes.get(&node) {
            Some(coord) => {
                ring.push(*coord);
            },
            None => {
                proof {
                    lemma_resolved_len(way.nodes@, dep_nodes@, i as int);
                }
                return Err(ConvertError::MissingNode { way: way.id, node });
            },
        }
        i += 1;
    }
    proof {
        lemma_resolved_len(way.nodes@, dep_nodes@, i as int);
        assert(way.nodes@.take(i as int) =~= way.nodes@);
    }
    let mut id = "way/".to_owned();
    push_decimal(&mut id, way.id);
    let properties = tags_to_props(&way.tags);
    let rings = vec![ring];
    proof {
        assert(rings@.map_values(|ring: Vec<Coord>| ring@) =~= seq![ring_of(way.nodes@, dep_nodes@)]);
    }
    Ok(Some(Feature { id, geometry: Geometry::Polygon(rings), properties }))
}

} // verus!
