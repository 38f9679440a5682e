[package]
name = "cadmus"
version = "0.1.0"
edition = "2021"
publish = false

[dependencies]
serde_json = { version = "=1.0.154", features = ["unbounded_depth"] }
serde = { version = "1", features = ["derive"] }
time = { version = "=0.3.55", features = ["formatting"] }
genai = "=0.6.5"
async-trait = "0.1"
thiserror = "2"
tokio = { version = "1", features = ["rt", "sync", "time", "macros"] }
tokio-stream = "0.1"
tracing = "0.1"
