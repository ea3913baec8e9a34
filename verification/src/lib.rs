//! Picks the objects of OpenStreetMap files whose tags pass a set of filters
//! and turns them into GeoJSON features: a node into a point, a closed way
//! into a polygon.
//!
//! Positions are kept in whole decimicro degrees throughout. Reading files,
//! turning positions into degrees and writing the features out is left to
//! the caller.

pub mod args;
pub mod decimal;
pub mod feature;
pub mod filter;
pub mod json;
pub mod osm;
pub mod parse;
pub mod run;
pub mod tags;
pub mod value_set;
