[package]
name = "lighter_rs"
version = "0.1.0"
edition = "2021"
publish = false

[dependencies]
rust_decimal = "*"
hex = "*"
serde = { version = "*", features = ["derive"] }
serde_json = "*"
chrono = "*"
thiserror = "*"
tokio = { version = "*", features = ["rt", "sync", "macros", "net", "time"] }
tokio-tungstenite = "*"
futures-util = "*"
reqwest = { version = "*", default-features = false, features = ["json"] }
