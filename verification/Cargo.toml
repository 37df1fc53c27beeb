[package]
name = "footie_grouper"
version = "0.1.0"
edition = "2021"
publish = false

[dependencies]
csv = "*"
serde = { version = "*", features = ["derive"] }
reqwest = { version = "*", default-features = false, features = ["json"] }
tokio = { version = "*", features = ["rt-multi-thread"] }
chrono = "*"
