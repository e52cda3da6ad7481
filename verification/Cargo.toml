[package]
name = "sheet_connector"
version = "0.1.0"
edition = "2021"
publish = false

[dependencies]
anyhow = "=1.0.104"
async-std = "=1.13.2"
async-trait = "=0.1.92"
fluvio = "=0.50.1"
futures = "=0.3.34"
google-sheets4 = "=5.0.5"
humantime = "=2.4.0"
serde_json = "=1.0.154"

[dev-dependencies]
fluvio-future = { version = "=0.8.3", features = ["retry"] }
