[package]
name = "sale_actions"
version = "0.1.0"
edition = "2021"
publish = false

[dependencies]
sha2 = "0.10"
hex = "0.4"
email_address = "0.2"
urlencoding = "2"
chrono = { version = "0.4", default-features = false, features = ["std"] }
serde = { version = "1", features = ["derive"] }
serde_json = "1"
tokio = { version = "1", features = ["macros", "rt-multi-thread", "time"] }
mongodb = "2"
reqwest = { version = "0.11", default-features = false, features = ["json"] }
futures = "0.3"
axum = "0.6"
tower-http = { version = "0.4", features = ["cors"] }
toml = "0.8"
