[package]
name = "goose"
version = "0.1.0"
edition = "2021"
publish = false

[dependencies]
regex = "1"
url = "2"
which = "*"
ignore = "*"
rmcp = "*"
schemars = "*"
serde = { version = "1", features = ["derive"] }
serde_yaml = "*"
tokio = { version = "1", features = ["process", "sync", "time", "rt", "macros", "net"] }
tracing = "*"
anyhow = "1"
once_cell = "1"
process-wrap = { version = "*", features = ["std"] }
