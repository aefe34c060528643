[package]
name = "mood_tracks"
version = "0.1.0"
edition = "2021"
publish = false

[dependencies]
rand = "=0.9.5"
async-trait = "0.1"
serde = { version = "1", features = ["derive"] }
serde_json = "1"
schemars = "0.8"
strum_macros = "0.27"
rig-core = { version = "0.11", default-features = false }
rspotify = { version = "0.14", default-features = false, features = ["client-reqwest", "reqwest-default-tls"] }
egui = { version = "0.31", default-features = false }
