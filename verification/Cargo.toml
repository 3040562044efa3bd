[package]
name = "pandoras_pot"
version = "0.1.0"
edition = "2021"
publish = false

[dependencies]
rand = { version = "0.9", features = ["small_rng"] }
bytes = "1"
tokio = { version = "1", features = ["rt-multi-thread", "macros", "sync", "net", "time"] }
tokio-stream = "0.1"
futures = "0.3"
axum = "0.8"
tower = { version = "0.5", features = ["buffer", "limit", "util"] }
tower-http = { version = "0.6", features = ["trace"] }
http-body = "1"
serde = { version = "1", features = ["derive"] }
toml = "0.8"
home = "0.5"
pico-args = "0.5"
tracing = "0.1"
tracing-subscriber = { version = "0.3", features = ["json"] }
