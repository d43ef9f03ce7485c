[package]
name = "graph_canvas"
version = "0.1.0"
edition = "2021"
publish = false

[dependencies]
uuid = { version = "1", features = ["v4"] }
serde = { version = "1", features = ["derive"] }
serde_json = "1"
serde_yml = "*"
toml = "*"
anyhow = "1"
dotenv = "*"
tracing-subscriber = { version = "*", features = ["env-filter"] }
tracing-rolling-file = "*"
egui = "*"
