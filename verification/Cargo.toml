[package]
name = "pantheon"
version = "0.1.0"
edition = "2021"
publish = false

[dependencies]
bytemuck = { version = "1", features = ["derive"] }
bytes = "1"
chrono = "0.4"
ctrlc = "3"
futures = "0.3"
itertools = "*"
parking_lot = "0.12"
serde = { version = "1", features = ["derive"] }
serde_json = "1"
thiserror = "*"
tokio = { version = "1", features = ["full"] }
tokio-stream = "0.1"
tokio-util = "0.7"
tracing = "0.1"
tracing-appender = "0.2"
tracing-error = "0.2"
tracing-subscriber = { version = "0.3", features = ["env-filter"] }
tracing-tracy = "*"
triple_buffer = "*"
uuid = { version = "1", features = ["v4"] }
vdso = "*"
