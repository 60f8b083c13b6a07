[package]
name = "md_tmpl_core"
version = "0.1.0"
edition = "2021"
publish = false

[dependencies]
hashbrown = "0.15"
itoa = "1"
serde = { version = "1", features = ["derive"] }
ciborium = "0.2"
flexbuffers = "2"
