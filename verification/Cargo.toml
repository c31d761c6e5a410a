[package]
name = "zxzedesk"
version = "0.1.0"
edition = "2021"
publish = false

[dependencies]
bytes = "1.12.1"
enigo = "0.1.3"
image = { version = "0.25.10", default-features = false, features = ["jpeg"] }
lazy_static = "1.5.1"
rand = "0.8.5"
regex = "1.12"
serde = { version = "1", features = ["derive"] }
serde_json = "1"
tokio = { version = "1", features = ["full"] }
xcap = "0.3"
