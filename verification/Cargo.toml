[package]
name = "cmap_pool"
version = "0.1.0"
edition = "2021"
publish = false

[dependencies]
semver = "1"
bson = "2"
serde = { version = "1", features = ["derive"] }
tokio = { version = "1", features = ["rt", "sync", "time"] }
futures = "0.3"
lazy_static = "1.4"
function_name = "0.2"
