[package]
name = "carbon_timescaledb"
version = "0.1.0"
edition = "2021"
publish = false

[dependencies]
clap = "2"
crossbeam-channel = "0.5"
jemallocator = "0.3"
log = "0.4"
postgres = "0.19"
rayon = "1"
simplelog = "0.5"
