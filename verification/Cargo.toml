[package]
name = "tikv_client"
version = "0.1.0"
edition = "2021"
publish = false

[dependencies]
tonic = { version = "=0.14.9", default-features = false }
tokio = { version = "=1.54.1", features = ["time", "rt", "macros"] }
async-trait = "=0.1.92"
derive-new = "=0.7.0"
