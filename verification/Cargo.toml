[package]
name = "roomler_core"
version = "0.1.0"
edition = "2021"
publish = false

[dependencies]
dashmap = "6"
hmac = "0.12"
sha1 = "0.10"
base64 = "0.22"
urlencoding = "2"
uuid = { version = "1", features = ["v4"] }
rand = "0.9"
bson = "2"
serde = { version = "1", features = ["derive"] }
serde_json = "1"
tokio = { version = "1", features = ["sync", "rt", "macros", "time"] }
futures = "0.3"
axum = { version = "0.8", features = ["ws"] }
tracing = "0.1"
anyhow = "1"
thiserror = "2"
async-trait = "0.1"
hound = "3"
rubato = "*"
audioadapter-buffers = "*"
reqwest = { version = "0.12", default-features = false, features = ["json"] }
