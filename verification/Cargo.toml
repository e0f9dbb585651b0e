[package]
name = "proj_pipeline"
version = "0.1.0"
edition = "2021"
publish = false

[dependencies]
smallvec = "1"
rayon = "1"
