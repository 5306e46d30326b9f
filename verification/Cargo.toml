[package]
name = "hexfish"
version = "0.1.0"
edition = "2021"
publish = false

[dependencies]
fastrand = "2"
jsonwebtoken = "9"
serde = { version = "1", features = ["derive"] }
serde_json = "1"
tokio = { version = "1", features = ["net", "io-util", "rt", "macros", "sync", "time"] }
