[package]
name = "changes_stream"
version = "0.1.0"
edition = "2021"
publish = false

[dependencies]
bytes = "1"
futures-util = "0.3"
log = "0.4"
reqwest = { version = "0.11", default-features = false, features = ["stream"] }
serde = "1"
serde_derive = "1"
serde_json = "1"
