[package]
name = "rate_ingest"
version = "0.1.0"
edition = "2021"
publish = false

[dependencies]
actix-cors = "*"
actix-files = "*"
actix-web = "*"
anyhow = "*"
chrono = "*"
dotenv = "*"
futures = "*"
serde = { version = "*", features = ["derive"] }
tiberius = "*"
tokio = { version = "*", features = ["full"] }
tokio-util = { version = "*", features = ["compat"] }
