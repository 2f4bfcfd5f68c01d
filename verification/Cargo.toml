[package]
name = "parser"
version = "0.1.0"
edition = "2021"
publish = false

[dependencies]
regex = "*"
serde = { version = "*", features = ["derive"] }
serde_json = "*"
quick-xml = { version = "*", features = ["serialize"] }
chrono = "*"
clap = { version = "*", features = ["derive"] }
