[package]
name = "sluiceway"
version = "0.1.0"
edition = "2021"

[dependencies]
futures-core = "0.3"
futures-util = "0.3"
metrics = "0.24"
object_store = "*"
rdkafka = "*"
serde = { version = "1", features = ["derive"] }
serde_json = "1"
sqlx-core = { version = "0.8", features = ["_rt-tokio"] }
sqlx-mysql = "0.8"
sqlx-postgres = "0.8"
sqlx-sqlite = { version = "0.8", features = ["bundled"] }
thiserror = "2"
tokio = { version = "1", features = ["macros", "rt", "sync", "time"] }
tokio-stream = { version = "0.1", features = ["time"] }
