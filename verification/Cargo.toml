[package]
name = "everest"
version = "0.1.0"
edition = "2021"
publish = false

[dependencies]
serde_json = { version = "1", features = ["preserve_order"] }
serde_yaml = "0.9"
titlecase = "*"
argh = "*"
rumqttc = { version = "*", default-features = false }
tokio = { version = "1", features = ["rt", "macros"] }
async-trait = "0.1"
anyhow = "1"
thiserror = "*"
