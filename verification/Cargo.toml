[package]
name = "asset_references"
version = "0.1.0"
edition = "2021"
publish = false

[dependencies]
anyhow = "1"
serde = { version = "1", features = ["derive"] }
swc_atoms = "*"
swc_common = "*"
swc_ecmascript = { version = "*", features = ["visit"] }
