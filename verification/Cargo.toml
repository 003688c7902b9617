[package]
name = "task_core"
version = "0.1.0"
edition = "2021"
publish = false

[dependencies]
tokio = { version = "=1.54.1", features = ["rt", "rt-multi-thread", "macros", "time", "sync", "net", "io-util", "test-util"] }
futures = "=0.3.34"
smol = "=2.0.2"
waker-fn = "=1.2.0"
serde = { version = "=1.0.229", features = ["derive"] }
serde_json = "=1.0.154"
chrono = { version = "=0.4.45", features = ["serde"] }
uuid = { version = "=1.29.0", features = ["v4", "serde"] }
actix-web = { version = "=4.18.1", default-features = false, features = ["macros"] }
