[package]
name = "node_ingest"
version = "0.1.0"
edition = "2021"
publish = false

[dependencies]
serde = { version = "=1.0.229", features = ["derive"] }
serde_json = "=1.0.154"
chrono = "=0.4.45"
rust_decimal = "=1.43.0"
reqwest = { version = "=0.12.28", default-features = false, features = ["json", "rustls-tls"] }
sqlx = { version = "=0.8.6", default-features = false, features = ["sqlite", "runtime-tokio", "migrate", "derive"] }
actix-web = { version = "=4.18.1", default-features = false, features = ["macros"] }
actix-rt = "=2.15.0"
