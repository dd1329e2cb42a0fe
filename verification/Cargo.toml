[package]
name = "region_engine"
version = "0.1.0"
edition = "2021"
publish = false

[dependencies]
uuid = { version = "1", features = ["v4"] }
serde = { version = "1", features = ["derive"] }
tokio = { version = "1", features = ["rt-multi-thread", "macros", "sync", "time"] }
async-trait = "0.1"
once_cell = "1"
reqwest = { version = "0.11", default-features = false, features = ["json"] }
secrecy = "0.8"
