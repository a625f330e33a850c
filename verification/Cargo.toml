[package]
name = "rquickjs_utils"
version = "0.1.0"
edition = "2021"
publish = false

[dependencies]
anyhow = "1"
argh = "*"
chrono = "0.4"
reqwest = { version = "*", default-features = false }
rquickjs = { version = "*", features = ["futures", "macro", "classes", "properties", "array-buffer", "loader"] }
rustyline = "*"
tokio = { version = "1", features = ["full"] }
