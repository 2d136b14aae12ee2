[package]
name = "multimind"
version = "0.1.0"
edition = "2021"
publish = false

[dependencies]
anyhow = "1"
chrono = { version = "0.4", features = ["serde"] }
ort = { version = "=2.0.0-rc.10", default-features = false, features = ["std", "load-dynamic"] }
parking_lot = "0.12"
rusqlite = { version = "0.32", features = ["bundled"] }
scopeguard = "1"
serde = { version = "1", features = ["derive"] }
serde_json = "1"
sha2 = "0.10"
sqlx = { version = "0.8", default-features = false, features = ["postgres", "runtime-tokio"] }
tokio = { version = "1", features = ["macros", "rt", "rt-multi-thread", "sync", "time"] }
toml = "0.8"
tracing = "0.1"
