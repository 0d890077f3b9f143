[package]
name = "opencrust"
version = "0.1.0"
edition = "2021"
publish = false

[dependencies]
rusqlite = { version = "=0.40.2", features = ["bundled"] }
uuid = { version = "=1.27.0", features = ["v4"] }
sqlite-vec = "*"
tokio = { version = "*", features = ["full"] }
axum = { version = "*", features = ["ws"] }
serde = { version = "*", features = ["derive"] }
serde_json = "*"
serde_yaml = "*"
toml = "*"
notify = "*"
dashmap = "*"
dirs = "*"
futures = "*"
async-trait = "*"
dialoguer = "*"
wasmtime = "=48.0.5"
wasmtime-wasi = "=48.0.5"
