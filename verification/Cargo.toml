[package]
name = "gbemu"
version = "0.1.0"
edition = "2021"
publish = false

[dependencies]
array-deque = "*"
serde = { version = "1", features = ["derive"] }
serde_json = "1"
tracing = "0.1"
tracing-subscriber = { version = "0.3", features = ["env-filter", "fmt"] }
anyhow = "1"
bytes = "1"
iced = { version = "0.14", default-features = false, features = ["tiny-skia", "canvas", "image"] }
