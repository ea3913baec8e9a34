use osm_geojson::args::AppArgs;
use osm_geojson::feature::{
    node_to_feature, node_to_point, tags_to_props, way_to_feature, ConvertError, Feature, Geometry,
    NodeToCoords,
};
use osm_geojson::filter::TagFilters;
use osm_geojson::osm::{Coord, Node, OsmObj, Relation, Way};
use osmpbfreader::Tags;
use serde_json::Value;
use std::path::PathBuf;

fn feature_filters(specs: &[&str]) -> TagFilters {
    AppArgs {
        files: Vec::new(),
        output: PathBuf::new(),
        tag_filters: specs.iter().map(|f| f.to_string()).collect(),
    }
    .parse_tag_filters()
}

fn feature_tags(pairs: &[(&str, &str)]) -> Tags {
    pairs.iter().map(|(k, v)| (k.to_string(), v.to_string())).collect()
}

fn at(lon: i32, lat: i32) -> Coord {
    Coord { decimicro_lon: lon, decimicro_lat: lat }
}

fn text(value: &str) -> Value {
    Value::String(value.to_string())
}

#[test]
fn props_hold_each_tag_as_a_string() {
    let tags = feature_tags(&[("name", "Rathaus"), ("building", "yes"), ("levels", "3")]);
    let props = tags_to_props(&tags).expect("properties are always made");
    assert_eq!(props.len(), 3);
    assert_eq!(props.get("name"), Some(&text("Rathaus")));
    assert_eq!(props.get("building"), Some(&text("yes")));
    // A value that looks like a number stays a string.
    assert_eq!(props.get("levels"), Some(&text("3")));
    assert_eq!(props.get("other"), None);
}

#[test]
fn props_of_no_tags_are_an_empty_object() {
    let props = tags_to_props(&Tags::new()).expect("properties are always made");
    assert!(props.is_empty());
}

#[test]
fn props_keep_the_last_value_given_for_a_key() {
    let mut tags = Tags::new();
    tags.insert("k".to_string(), "first".to_string());
    tags.insert("k".to_string(), "second".to_string());
    tags.insert("a".to_string(), "".to_string());
    let props = tags_to_props(&tags).expect("properties are always made");
    assert_eq!(props.len(), 2);
    assert_eq!(props.get("k"), Some(&text("second")));
    assert_eq!(props.get("a"), Some(&text("")));
}

#[test]
fn point_of_a_node_is_lon_then_lat() {
    let node = Node { id: 5, tags: Tags::new(), decimicro_lat: 485_000_000, decimicro_lon: -23_000_000 };
    assert_eq!(node_to_point(&node), at(-23_000_000, 485_000_000));
}

#[test]
fn matching_node_gives_a_point_feature() {
    let node = Node {
        id: 4711,
        tags: feature_tags(&[("amenity", "cafe"), ("name", "Zum Eck")]),
        decimicro_lat: 523_456_789,
        decimicro_lon: 134_000_001,
    };
    let feature = node_to_feature(&node, &feature_filters(&["amenity=cafe|bar"])).expect("the node matches");
    assert_eq!(feature.id, "node/4711");
    assert_eq!(feature.geometry, Geometry::Point(at(134_000_001, 523_456_789)));
    let props = feature.properties.expect("properties are always made");
    assert_eq!(props.len(), 2);
    assert_eq!(props.get("amenity"), Some(&text("cafe")));
    assert_eq!(props.get("name"), Some(&text("Zum Eck")));
}

#[test]
fn node_with_other_tags_gives_no_feature() {
    let filters = feature_filters(&["amenity=cafe|bar"]);
    let other_value = Node { id: 1, tags: feature_tags(&[("amenity", "pub")]), decimicro_lat: 1, decimicro_lon: 2 };
    let no_tag = Node { id: 2, tags: feature_tags(&[("name", "cafe")]), decimicro_lat: 1, decimicro_lon: 2 };
    let no_tags = Node { id: 3, tags: Tags::new(), decimicro_lat: 1, decimicro_lon: 2 };
    assert_eq!(node_to_feature(&other_value, &filters), None);
    assert_eq!(node_to_feature(&no_tag, &filters), None);
    assert_eq!(node_to_feature(&no_tags, &filters), None);
}

#[test]
fn node_with_negative_id() {
    let node = Node { id: -12, tags: feature_tags(&[("a", "b")]), decimicro_lat: 0, decimicro_lon: 0 };
    let feature = node_to_feature(&node, &TagFilters::new()).expect("no filter, so every node matches");
    assert_eq!(feature.id, "node/-12");
    assert_eq!(feature.geometry, Geometry::Point(at(0, 0)));
}

fn triangle_coords() -> NodeToCoords {
    let mut coords = NodeToCoords::new();
    coords.insert(100, at(10_000_000, 20_000_000));
    coords.insert(101, at(10_000_000, 30_000_000));
    coords.insert(102, at(20_000_000, 30_000_000));
    coords
}

#[test]
fn closed_way_gives_a_polygon_of_one_ring() {
    let way = Way { id: 77, tags: feature_tags(&[("building", "yes")]), nodes: vec![100, 101, 102, 100] };
    let feature = way_to_feature(way, &triangle_coords()).expect("all nodes are known").expect("the way is closed");
    assert_eq!(feature.id, "way/77");
    assert_eq!(
        feature.geometry,
        Geometry::Polygon(vec![vec![
            at(10_000_000, 20_000_000),
            at(10_000_000, 30_000_000),
            at(20_000_000, 30_000_000),
            at(10_000_000, 20_000_000),
        ]])
    );
    let props = feature.properties.expect("properties are always made");
    assert_eq!(props.len(), 1);
    assert_eq!(props.get("building"), Some(&text("yes")));
}

#[test]
fn closed_way_is_taken_whatever_its_tags() {
    let way = Way { id: 1, tags: Tags::new(), nodes: vec![101, 102, 101] };
    let feature = way_to_feature(way, &triangle_coords()).expect("all nodes are known").expect("the way is closed");
    assert_eq!(
        feature.geometry,
        Geometry::Polygon(vec![vec![
            at(10_000_000, 30_000_000),
            at(20_000_000, 30_000_000),
            at(10_000_000, 30_000_000),
        ]])
    );
    assert!(feature.properties.expect("properties are always made").is_empty());
}

#[test]
fn open_way_gives_nothing() {
    let way = Way { id: 78, tags: feature_tags(&[("building", "yes")]), nodes: vec![100, 101, 102] };
    assert_eq!(way_to_feature(way, &triangle_coords()), Ok(None));
}

#[test]
fn open_way_gives_nothing_even_with_unknown_nodes() {
    let way = Way { id: 78, tags: feature_tags(&[("building", "yes")]), nodes: vec![1, 2, 3] };
    assert_eq!(way_to_feature(way, &NodeToCoords::new()), Ok(None));
}

#[test]
fn way_of_one_node_is_closed() {
    let way = Way { id: 9, tags: Tags::new(), nodes: vec![102] };
    assert!(way.is_closed());
    assert!(!way.is_open());
    let feature = way_to_feature(way, &triangle_coords()).expect("the node is known").expect("the way is closed");
    assert_eq!(feature.geometry, Geometry::Polygon(vec![vec![at(20_000_000, 30_000_000)]]));
}

#[test]
fn way_without_nodes_is_closed() {
    let way = Way { id: 9, tags: Tags::new(), nodes: Vec::new() };
    assert!(way.is_closed());
    let feature = way_to_feature(way, &NodeToCoords::new()).expect("no node is asked for").expect("the way is closed");
    assert_eq!(feature.id, "way/9");
    assert_eq!(feature.geometry, Geometry::Polygon(vec![Vec::new()]));
}

#[test]
fn way_is_open_when_its_ends_differ() {
    assert!(Way { id: 1, tags: Tags::new(), nodes: vec![1, 2] }.is_open());
    assert!(Way { id: 1, tags: Tags::new(), nodes: vec![1, 2, 1] }.is_closed());
    assert!(Way { id: 1, tags: Tags::new(), nodes: vec![1, 1, 2] }.is_open());
}

#[test]
fn closed_way_with_unknown_node_is_an_error() {
    let way = Way { id: 80, tags: feature_tags(&[("building", "yes")]), nodes: vec![100, 555, 666, 100] };
    assert_eq!(way_to_feature(way, &triangle_coords()), Err(ConvertError::MissingNode { way: 80, node: 555 }));

    let at_the_ends = Way { id: 81, tags: Tags::new(), nodes: vec![7, 100, 7] };
    assert_eq!(
        way_to_feature(at_the_ends, &triangle_coords()),
        Err(ConvertError::MissingNode { way: 81, node: 7 })
    );
}

#[test]
fn errors_say_what_went_wrong() {
    assert_eq!(ConvertError::MissingNode { way: 1, node: 2 }.message(), "Could not find node in way");
    assert_eq!(ConvertError::UnexpectedRelation { relation: 3 }.message(), "Found relation when excluded");
}

#[test]
fn objects_know_their_kind_and_tags() {
    let node = OsmObj::Node(Node { id: 1, tags: feature_tags(&[("a", "1")]), decimicro_lat: 0, decimicro_lon: 0 });
    let way = OsmObj::Way(Way { id: 2, tags: feature_tags(&[("b", "2")]), nodes: vec![1] });
    let relation = OsmObj::Relation(Relation { id: 3, tags: feature_tags(&[("c", "3")]) });
    assert!(!node.is_relation());
    assert!(!way.is_relation());
    assert!(relation.is_relation());
    assert!(node.tags().contains("a", "1"));
    assert!(way.tags().contains("b", "2"));
    assert!(relation.tags().contains("c", "3"));
}

#[test]
fn features_compare_by_what_they_hold() {
    let node = Node { id: 1, tags: feature_tags(&[("a", "1")]), decimicro_lat: 3, decimicro_lon: 4 };
    let made = node_to_feature(&node, &TagFilters::new()).expect("no filter, so every node matches");
    let mut props = serde_json::Map::new();
    props.insert("a".to_string(), text("1"));
    let expected = Feature { id: "node/1".to_string(), geometry: Geometry::Point(at(4, 3)), properties: Some(props) };
    assert_eq!(made, expected);
}
