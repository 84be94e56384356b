[package]
name = "word_table"
version = "0.1.0"
edition = "2021"
publish = false

[dependencies]
reqwest = { version = "=0.11.27", features = ["json"] }
rocket = "=0.5.2"
serde = { version = "=1.0.229", features = ["derive"] }

[dev-dependencies]
tokio = { version = "=1.54.1", features = ["rt", "net", "time"] }
