//! Turning the objects of one file into features, one object at a time.

use crate::feature::{
    lemma_resolved_len, node_outcome, node_to_feature, node_to_point, outcome_view, point_feature,
    polygon_feature, way_outcome, way_to_feature, ConvertError, FeatureModel, GeometryModel, NodeToCoords,
    Outcome, OutcomeModel,
};
use crate::filter::{filters_match, FilterMap, TagFilters};
use crate::osm::{is_closed, Coord, Node, OsmObj, Way};
use crate::tags::tags_view;
use std::collections::HashMap;
use vstd::prelude::*;

verus! {

/// What is kept while the objects of one file are turned into features: the
/// positions of the nodes that gave no feature themselves, for the ways that
/// run through them, and the number of features made so far.
pub struct FileRun {
    dep_nodes: NodeToCoords,
    count: usize,
}

/// What a `FileRun` holds.
pub ghost struct RunModel {
    pub coords: Map<i64, Coord>,
    pub count: nat,
}

impl View for FileRun {
    type V = RunModel;

    closed spec fn view(&self) -> RunModel {
        RunModel { coords: self.dep_nodes@, count: self.count as nat }
    }
}

/// What becomes of one object, given the positions `coords` of the nodes
/// kept so far:
/// a node whose tags pass the filters gives its point feature, another node
/// gives none; a way gives what `way_outcome` says, whatever its tags; a
/// relation is an error.
pub open spec fn step_outcome(coords: Map<i64, Coord>, obj: OsmObj, filters: FilterMap) -> OutcomeModel {
    match obj {
        OsmObj::Node(node) => Ok(node_outcome(node, filters)),
        OsmObj::Way(way) => way_outcome(way, coords),
        OsmObj::Relation(relation) => Err(ConvertError::UnexpectedRelation { relation: relation.id }),
    }
}

/// Whether `obj` is a node that gives no feature under `filters`: such a
/// node is kept for the ways that run through it.
pub open spec fn is_kept_node(obj: OsmObj, filters: FilterMap) -> bool {
    obj matches OsmObj::Node(node) && !filters_match(filters, tags_view(node.tags))
}

/// The positions kept after one object: a node that gives no feature is
/// put in under its identifier, over what was there; any other object
/// changes nothing.
pub open spec fn coords_after(coords: Map<i64, Coord>, obj: OsmObj, filters: FilterMap) -> Map<i64, Coord> {
    match obj {
        OsmObj::Node(node) => if is_kept_node(obj, filters) {
            coords.insert(node.id, node.coord())
        } else {
            coords
        },
        _ => coords,
    }
}

/// Whether one object gives a feature.
pub open spec fn gives_feature(coords: Map<i64, Coord>, obj: OsmObj, filters: FilterMap) -> bool {
    step_outcome(coords, obj, filters) matches Ok(Some(_))
}

/// The state after one object: the positions of `coords_after`, and one
/// more feature counted exactly where the object gave one.
pub open spec fn state_after(state: RunModel, obj: OsmObj, filters: FilterMap) -> RunModel {
    RunModel {
        coords: coords_after(state.coords, obj, filters),
        count: if gives_feature(state.coords, obj, filters) {
            state.count + 1
        } else {
            state.count
        },
    }
}

impl FileRun {
    /// The state at the start of a file: no position kept, no feature made.
    pub fn new() -> (run: FileRun)
        ensures
            run@ == (RunModel { coords: Map::empty(), count: 0 }),
    {
        FileRun { dep_nodes: HashMap::new(), count: 0 }
    }

    /// How many features have been made.
    pub fn count(&self) -> (count: usize)
        ensures
            count == self@.count,
    {
        self.count
    }

    /// The position kept for the node `id`, if there is one.
    pub fn position(&self, id: i64) -> (kept: Option<Coord>)
        ensures
            self@.coords.contains_key(id) ==> kept == Some(self@.coords[id]),
            !self@.coords.contains_key(id) ==> kept is None,
    {
        match self.dep_nodes.get(&id) {
            Some(coord) => Some(*coord),
            None => None,
        }
    }

    /// Handles one object: returns the feature that it gives, if any, and
    /// keeps the position of a node that gives none.
    pub fn step(&mut self, obj: OsmObj, tag_filters: &TagFilters) -> (outcome: Outcome)
        requires
            old(self)@.count < usize::MAX,
        ensures
            outcome_view(outcome) == step_outcome(old(self)@.coords, obj, tag_filters@),
            final(self)@ == state_after(old(self)@, obj, tag_filters@),
    {
        match obj {
            OsmObj::Node(node) => match node_to_feature(&node, tag_filters) {
                Some(feature) => {
                    self.count += 1;
                    Ok(Some(feature))
                },
                None => {
                    self.dep_nodes.insert(node.id, node_to_point(&node));
                    Ok(None)
                },
            },
            OsmObj::Way(way) => match way_to_feature(way, &self.dep_nodes) {
                Ok(Some(feature)) => {
                    self.count += 1;
                    Ok(Some(feature))
                },
                Ok(None) => Ok(None),
                Err(error) => Err(error),
            },
            OsmObj::Relation(relation) => Err(ConvertError::UnexpectedRelation { relation: relation.id }),
        }
    }
}

/// The state after the objects `objs` of one file, handled in order from
/// the state at the start of a file.
pub open spec fn run_state(objs: Seq<OsmObj>, filters: FilterMap) -> RunModel
    decreases objs.len(),
{
    if objs.len() == 0 {
        RunModel { coords: Map::empty(), count: 0 }
    } else {
        state_after(run_state(objs.drop_last(), filters), objs.last(), filters)
    }
}

/// The features that the objects `objs` of one file give, in order.
pub open spec fn emitted(objs: Seq<OsmObj>, filters: FilterMap) -> Seq<FeatureModel>
    decreases objs.len(),
{
    if objs.len() == 0 {
        Seq::empty()
    } else {
        let before = emitted(objs.drop_last(), filters);
        match step_outcome(run_state(objs.drop_last(), filters).coords, objs.last(), filters) {
            Ok(Some(feature)) => before.push(feature),
            _ => before,
        }
    }
}

/// The outcome that is the feature `feature`.
pub open spec fn outcome_of(feature: FeatureModel) -> OutcomeModel {
    Ok(Some(feature))
}

/// The outcome of an object that gives no feature and is no error.
pub open spec fn no_feature() -> OutcomeModel {
    Ok(None)
}

/// Whether `obj` is a node with the identifier `id` that gives no feature.
pub open spec fn keeps(obj: OsmObj, id: i64, filters: FilterMap) -> bool {
    is_kept_node(obj, filters) && obj->Node_0.id == id
}

/// Whether the object at `i` is the last node `id` of `objs` that gives no
/// feature.
pub open spec fn is_last_kept(objs: Seq<OsmObj>, filters: FilterMap, id: i64, i: int) -> bool {
    &&& 0 <= i < objs.len()
    &&& keeps(objs[i], id, filters)
    &&& forall|j: int| i < j < objs.len() ==> !keeps(#[trigger] objs[j], id, filters)
}

/// A node whose tags pass the filters gives a point feature that lies
/// exactly where the node lies, and its position is not kept.
pub proof fn lemma_matching_node_gives_point(
    coords: Map<i64, Coord>,
    node: Node,
    filters: FilterMap,
)
    requires
        filters_match(filters, tags_view(node.tags)),
    ensures
        step_outcome(coords, OsmObj::Node(node), filters) == outcome_of(point_feature(node)),
        point_feature(node).geometry == GeometryModel::Point(
            Coord { decimicro_lon: node.decimicro_lon, decimicro_lat: node.decimicro_lat },
        ),
        coords_after(coords, OsmObj::Node(node), filters) == coords,
{
}

/// A node whose tags do not pass the filters gives no feature, and its
/// position is kept under its identifier for the ways behind it.
pub proof fn lemma_other_node_is_kept(coords: Map<i64, Coord>, node: Node, filters: FilterMap)
    requires
        !filters_match(filters, tags_view(node.tags)),
    ensures
        step_outcome(coords, OsmObj::Node(node), filters) == no_feature(),
        coords_after(coords, OsmObj::Node(node), filters) == coords.insert(node.id, node.coord()),
{
}

/// A closed way whose nodes all have a position gives a polygon of one
/// ring, and the ring holds, index for index, the positions of the way's
/// nodes.
pub proof fn lemma_closed_way_gives_polygon(
    coords: Map<i64, Coord>,
    way: Way,
    filters: FilterMap,
)
    requires
        is_closed(way.nodes@),
        forall|i: int| 0 <= i < way.nodes@.len() ==> coords.contains_key(#[trigger] way.nodes@[i]),
    ensures
        step_outcome(coords, OsmObj::Way(way), filters) == outcome_of(polygon_feature(way, coords)),
        polygon_feature(way, coords).geometry matches GeometryModel::Polygon(rings) && rings.len() == 1
            && rings[0].len() == way.nodes@.len() && forall|i: int|
            0 <= i < way.nodes@.len() ==> #[trigger] rings[0][i] == coords[way.nodes@[i]],
        coords_after(coords, OsmObj::Way(way), filters) == coords,
{
    lemma_resolved_len(way.nodes@, coords, way.nodes@.len() as int);
}

/// An open way gives no feature, whatever its tags and whatever the filters.
pub proof fn lemma_open_way_gives_nothing(coords: Map<i64, Coord>, way: Way, filters: FilterMap)
    requires
        !is_closed(way.nodes@),
    ensures
        step_outcome(coords, OsmObj::Way(way), filters) == no_feature(),
        coords_after(coords, OsmObj::Way(way), filters) == coords,
{
}

/// The number of features counted for a file is the number of features
/// that its objects gave.
pub proof fn lemma_count_is_emitted(objs: Seq<OsmObj>, filters: FilterMap)
    ensures
        run_state(objs, filters).count == emitted(objs, filters).len(),
    decreases objs.len(),
{
    if objs.len() > 0 {
        lemma_count_is_emitted(objs.drop_last(), filters);
    }
}

/// The positions kept for a file come from that file alone: a position is
/// kept for `id` exactly where one of the file's objects so far is a node
/// `id` that gave no feature, and it is the position of the last such node.
pub proof fn lemma_kept_positions(objs: Seq<OsmObj>, filters: FilterMap, id: i64)
    ensures
        run_state(objs, filters).coords.contains_key(id) <==> exists|i: int|
            0 <= i < objs.len() && keeps(#[trigger] objs[i], id, filters),
        run_state(objs, filters).coords.contains_key(id) ==> exists|i: int|
            is_last_kept(objs, filters, id, i) && run_state(objs, filters).coords[id] == objs[i]->Node_0.coord(),
    decreases objs.len(),
{
    if objs.len() > 0 {
        let before = objs.drop_last();
        let last = objs.len() - 1;
        lemma_kept_positions(before, filters, id);
        if keeps(objs[last], id, filters) {
            assert(is_last_kept(objs, filters, id, last));
        } else {
            let kept = run_state(objs, filters).coords;
            let kept_before = run_state(before, filters).coords;
            if kept.contains_key(id) {
                let i = choose|i: int|
                    is_last_kept(before, filters, id, i) && kept_before[id] == before[i]->Node_0.coord();
                assert forall|j: int| i < j < objs.len() implies !keeps(#[trigger] objs[j], id, filters) by {
                    if j < last {
                        assert(!keeps(before[j], id, filters));
                    }
                }
                assert(is_last_kept(objs, filters, id, i));
            }
            if exists|i: int| 0 <= i < objs.len() && keeps(#[trigger] objs[i], id, filters) {
                let i = choose|i: int| 0 <= i < objs.len() && keeps(#[trigger] objs[i], id, filters);
                assert(keeps(before[i], id, filters));
            }
        }
    }
}

} // verus!
