[package]
name = "issue_delivery"
version = "0.1.0"
edition = "2021"
publish = false

[dependencies]
actix-web = { version = "4", default-features = false }
actix-web-flash-messages = "*"
anyhow = "1"
secrecy = { version = "0.8", features = ["serde"] }
serde = { version = "1", features = ["derive"] }
sqlx = { version = "*", default-features = false, features = ["postgres", "uuid", "runtime-tokio"] }
tokio = { version = "1", features = ["time"] }
tracing = "0.1"
uuid = "1"
