[package]
name = "capnp_annotations"
version = "0.1.0"
edition = "2021"
publish = false

[dependencies]
anyhow = "*"
capnp = "*"
capnpc = "*"
clap = { version = "*", features = ["derive"] }
glob = "*"
serde = { version = "*", features = ["derive"] }
serde_json = "*"
