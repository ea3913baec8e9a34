[package]
name = "osm_geojson"
version = "0.1.0"
edition = "2021"
publish = false

[dependencies]
geojson = "=0.24.2"
osmpbfreader = "=0.13.4"
serde_json = "=1.0.154"
structopt = "=0.3.26"
