//! The objects of an OpenStreetMap file.

use osmpbfreader::Tags;
use vstd::prelude::*;

verus! {

/// A position on the globe. Both fields count decimicro degrees: a degree is
/// ten million of them.
#[derive(Clone, Copy, Debug, PartialEq, Eq, Structural)]
pub struct Coord {
    /// The longitude.
    pub decimicro_lon: i32,
    /// The latitude.
    pub decimicro_lat: i32,
}

/// A node: a point with tags.
#[derive(Debug, PartialEq)]
pub struct Node {
    /// The identifier of the node among the nodes of its file.
    pub id: i64,
    /// The tags of the node.
    pub tags: Tags,
    /// The latitude in decimicro degrees.
    pub decimicro_lat: i32,
    /// The longitude in decimicro degrees.
    pub decimicro_lon: i32,
}

/// A way: a line through nodes, with tags.
#[derive(Debug, PartialEq)]
pub struct Way {
    /// The identifier of the way among the ways of its file.
    pub id: i64,
    /// The tags of the way.
    pub tags: Tags,
    /// The identifiers of the nodes that the way runs through, in order.
    pub nodes: Vec<i64>,
}

/// A relation. Nothing is made of relations, so its members are not kept.
#[derive(Debug, PartialEq)]
pub struct Relation {
    /// The identifier of the relation among the relations of its file.
    pub id: i64,
    /// The tags of the relation.
    pub tags: Tags,
}

/// An object of an OpenStreetMap file.
#[derive(Debug, PartialEq)]
pub enum OsmObj {
    Node(Node),
    Way(Way),
    Relation(Relation),
}

/// Whether a way through `nodes` ends where it starts. A way without nodes
/// counts as closed.
pub open spec fn is_closed(nodes: Seq<i64>) -> bool {
    nodes.len() == 0 || nodes.first() == nodes.last()
}

impl Node {
    /// Where the node lies.
    pub open spec fn coord(&self) -> Coord {
        Coord { decimicro_lon: self.decimicro_lon, decimicro_lat: self.decimicro_lat }
    }
}

impl Way {
    /// Whether the way ends where it starts.
    pub fn is_closed(&self) -> (closed: bool)
        ensures
            closed == is_closed(self.nodes@),
    {
        let n = self.nodes.len();
        n == 0 || self.nodes[0] == self.nodes[n - 1]
    }

    /// Whether the way ends elsewhere than it starts.
    pub fn is_open(&self) -> (open: bool)
        ensures
            open == !is_closed(self.nodes@),
    {
        !self.is_closed()
    }
}

impl OsmObj {
    /// Whether the object is a relation.
    pub fn is_relation(&self) -> (relation: bool)
        ensures
            relation == (self is Relation),
    {
        match self {
            OsmObj::Relation(_) => true,
            _ => false,
        }
    }

    /// The tags of the object.
    pub fn tags(&self) -> (tags: &Tags)
        ensures
            *tags == self.spec_tags(),
    {
        match self {
            OsmObj::Node(node) => &node.tags,
            OsmObj::Way(way) => &way.tags,
            OsmObj::Relation(relation) => &relation.tags,
        }
    }

    /// The tags of the object.
    pub open spec fn spec_tags(&self) -> Tags {
        match *self {
            OsmObj::Node(node) => node.tags,
            OsmObj::Way(way) => way.tags,
            OsmObj::Relation(relation) => relation.tags,
        }
    }
}

} // verus!
