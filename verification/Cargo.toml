[package]
name = "hostwatch"
version = "0.1.0"
edition = "2021"
publish = false

[dependencies]
axum = "0.7"
bollard = "0.16"
chrono = "0.4"
futures-util = "0.3"
jemallocator = "0.5"
serde = { version = "1", features = ["derive"] }
sysinfo = "0.30"
tokio = { version = "1", features = ["rt-multi-thread", "macros", "net", "time"] }
