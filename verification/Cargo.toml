[package]
name = "ciphertoken"
version = "0.1.0"
edition = "2021"
publish = false

[dependencies]
jsonwebtoken = "9"
base64 = "0.22"
rand = "0.8"
rsa = "0.9"
uuid = { version = "1", features = ["v4"] }
tokio = { version = "1", features = ["rt-multi-thread"] }

[dev-dependencies]
serde_json = "1"
