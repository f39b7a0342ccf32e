[package]
name = "duper"
version = "0.1.0"
edition = "2021"
publish = false

[dependencies]
json-escape = "=0.3.1"
base64 = "=0.22.1"
regex = "=1.13.1"
uuid = "=1.29.1"
rust_decimal = { version = "=1.43.0", default-features = false, features = ["std"] }
ipnet = "=2.12.2"
serde_core = "=1.0.229"
