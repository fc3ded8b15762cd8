[package]
name = "intersect_bench"
version = "0.1.0"
edition = "2021"
publish = false

[dependencies]
rayon = "1"
rand = "0.8"
crossterm = "0.27"
prettytable-rs = { version = "0.10", default-features = false }
