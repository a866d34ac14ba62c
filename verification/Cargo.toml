[package]
name = "p2p_node"
version = "0.1.0"
edition = "2021"
publish = false

[dependencies]
rand = "0.8"
serde = { version = "1", features = ["derive"] }
serde_json = "1"
anyhow = "1"
tokio = { version = "1", default-features = false, features = ["rt-multi-thread", "macros", "fs", "time", "net", "sync", "io-util"] }
reqwest = { version = "0.12", default-features = false, features = ["json"] }
iroh-base = "0.91"
