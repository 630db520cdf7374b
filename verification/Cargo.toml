[package]
name = "workspace_layout"
version = "0.1.0"
edition = "2021"
publish = false

[dependencies]
bincode = "1"
serde_json = "1"
