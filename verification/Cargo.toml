[package]
name = "message_hub"
version = "0.1.0"
edition = "2021"
publish = false

[dependencies]
sha1_smol = { version = "1", features = ["std"] }
base64 = "0.21"
aes = "0.8"
cbc = { version = "0.1", features = ["alloc"] }
chrono = "0.4"
serde = { version = "1", features = ["derive"] }
serde_derive = "1"
serde_json = "1"
reqwest = { version = "0.11", default-features = false, features = ["json"] }
redis = { version = "0.23", default-features = false }
tokio = { version = "1", features = ["rt-multi-thread", "macros"] }
axum = "0.7"
askama = "0.12"
uuid = { version = "1", features = ["v4"] }
tracing = "0.1"
log = "0.4"
lazy_static = "1"
async-trait = "0.1"
config = "0.11"
sea-orm = { version = "0.12", default-features = false, features = ["macros"] }
rbatis = "4"
