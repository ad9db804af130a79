[package]
name = "cursor_server"
version = "0.1.0"
edition = "2021"
publish = false

[dependencies]
bytes = "1"
chrono = "0.4"
dirs = "*"
dom_smoothie = "*"
encoding_rs = "0.8"
futures-util = "0.3"
hex = "0.4"
hudsucker = "*"
libc = "0.2"
parking_lot = "0.12"
regex = "1"
reqwest = { version = "0.12", default-features = false, features = ["blocking", "stream", "rustls-tls"] }
serde = { version = "1", features = ["derive"] }
serde_json = "1"
serde_yaml = "0.9"
sha2 = "0.10"
sqlx = { version = "0.8", default-features = false, features = ["runtime-tokio", "sqlite"] }
thiserror = "2"
tokio = { version = "1", features = ["full"] }
tokio-util = "0.7"
tracing = "0.1"
url = "2"
uuid = { version = "1", features = ["v4"] }
