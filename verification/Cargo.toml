[package]
name = "lgtv"
version = "0.1.0"
edition = "2021"
publish = false

[dependencies]
serde_json = "1"
url = "2"
futures = "0.3"
failure = "0.1"
log = "0.4"
async-std = "1"
async-tungstenite = { version = "0.4", features = ["async-std-runtime"] }
tungstenite = "0.10"
