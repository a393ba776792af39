[package]
name = "jev_pilot"
version = "0.1.0"
edition = "2021"
publish = false

[dependencies]
roxmltree = "*"
serde = { version = "1", features = ["derive"] }
serde_json = "1"
ureq = { version = "3", features = ["json"] }
tokio = { version = "1", features = ["rt", "macros", "time"] }
rmcp = { version = "*", features = ["server", "macros", "transport-io"] }
schemars = "*"
