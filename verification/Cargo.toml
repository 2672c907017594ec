[package]
name = "node_debug"
version = "0.1.0"
edition = "2021"
publish = false

[dependencies]
base64 = "0.13"
serde = { version = "1", features = ["derive"] }
serde_json = "1"
websocket = { version = "0.26", default-features = false, features = ["sync"] }
reqwest = { version = "0.11", default-features = false, features = ["blocking"] }
rustyline = "9"
