[package]
name = "awa-model"
version = "0.1.0"
edition = "2021"
publish = false

[dependencies]
cel = "*"
chrono = { version = "0.4", features = ["serde"] }
hex = "0.4"
serde = { version = "1", features = ["derive"] }
serde_json = "1"
sqlx = { version = "*", default-features = false, features = ["runtime-tokio", "postgres", "chrono", "uuid", "json", "derive"] }
tokio = { version = "1", features = ["time", "rt", "macros"] }
tracing = "0.1"
uuid = { version = "1", features = ["v4", "serde"] }
