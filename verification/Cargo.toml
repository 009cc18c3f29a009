[package]
name = "nova_wayland"
version = "0.1.0"
edition = "2021"
publish = false

[dependencies]
futures-util = "0.3"
serde_json = "1"
tokio = { version = "1", features = ["time"] }
zbus = { version = "5", default-features = false, features = ["tokio"] }
