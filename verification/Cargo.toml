[package]
name = "tagme"
version = "0.1.0"
edition = "2021"
publish = false

[dependencies]
axum = "*"
base64 = "*"
once_cell = "*"
rand = "*"
reqwest = { version = "*", default-features = false, features = ["json"] }
rmp-serde = "*"
serde = { version = "*", features = ["derive"] }
serde_json = "*"
sha2 = "*"
sled = "*"
time = "*"
tokio = { version = "*", features = ["rt-multi-thread", "macros", "net", "sync"] }
toml = "*"
tower-http = { version = "*", features = ["trace"] }
tracing = "*"
tracing-subscriber = "*"
