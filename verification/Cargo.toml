[package]
name = "libmarathon"
version = "0.1.0"
edition = "2021"
publish = false

[dependencies]
uuid = { version = "1", features = ["v4"] }
blake3 = "1"
rand = "0.8"
rustc-hash = "2"
chrono = { version = "0.4", default-features = false, features = ["clock", "std"] }
pkarr = { version = "*", default-features = false }
glam = "0.30"
serde = { version = "1", features = ["derive"] }
serde_json = "1"
rusqlite = { version = "0.37", features = ["bundled"] }
