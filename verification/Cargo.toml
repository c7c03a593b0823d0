[package]
name = "user_store"
version = "0.1.0"
edition = "2021"
publish = false

[dependencies]
chrono = { version = "*", features = ["serde"] }
actix-web = "*"
serde = { version = "*", features = ["derive"] }
uuid = { version = "*", features = ["v4", "serde"] }
dotenv = "*"
thiserror = "*"
deadpool-postgres = "*"
tokio-postgres = "*"
tokio-pg-mapper = "*"
derive_more = { version = "*", features = ["display", "from"] }
