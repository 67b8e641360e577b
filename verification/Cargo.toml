[package]
name = "zk_focil"
version = "0.1.0"
edition = "2021"
publish = false

[dependencies]
k256 = { version = "=0.13.4", features = ["arithmetic"] }
sha2 = "=0.10.9"
sha3 = "=0.10.9"
hex = "=0.4.3"
rand = "=0.8.8"
serde = { version = "=1.0.229", features = ["derive"] }
serde_json = "=1.0.151"
base64 = "=0.22.1"
bincode = "=1.3.3"
