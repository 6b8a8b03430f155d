[package]
name = "instavox"
version = "0.1.0"
edition = "2021"
publish = false

[dependencies]
activitypub_federation = { version = "*", default-features = false, features = ["axum"] }
askama = "*"
async-trait = "0.1"
axum = { version = "0.8", features = ["multipart"] }
chrono = { version = "0.4", features = ["serde"] }
reqwest = { version = "0.12", default-features = false, features = ["json"] }
serde = { version = "1", features = ["derive"] }
serde_json = "1"
sqlx = { version = "0.8", default-features = false, features = ["runtime-tokio", "postgres", "chrono", "macros"] }
tokio = { version = "1", features = ["full"] }
tower-sessions = "*"
tracing = "0.1"
url = { version = "2", features = ["serde"] }
urlencoding = "2"
