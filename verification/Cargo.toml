[package]
name = "transcript_engine"
version = "0.1.0"
edition = "2021"
publish = false

[dependencies]
serde_json = "1"
dirs = "5"
chrono = "0.4"
rayon = "1"
notify = "6"
