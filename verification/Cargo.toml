[package]
name = "db_client"
version = "0.1.0"
edition = "2021"
publish = false

[dependencies]
futures = "=0.3.34"
postgres = "=0.19.14"
rusqlite = { version = "=0.41.1", features = ["bundled", "column_decltype"] }
serde = { version = "=1.0.229", features = ["derive"] }
serde_json = "=1.0.154"
