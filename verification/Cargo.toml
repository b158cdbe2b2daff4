[package]
name = "mmo_replication"
version = "0.1.0"
edition = "2021"
publish = false

[dependencies]
bytes = "1"
uuid = { version = "1", features = ["v4"] }
serde = { version = "1", features = ["derive"] }
serde_json = "1"
bitcode = "0.6"
bincode = "1"
anyhow = "1"
dotenv = "0.15"
tokio = { version = "1", features = ["rt-multi-thread", "macros", "time", "sync"] }
crossbeam-channel = "0.5"
dashmap = "6"
indexmap = "2"
rustc-hash = "2"
nohash-hasher = "0.2"
redis = { version = "1", features = ["tokio-comp"] }
