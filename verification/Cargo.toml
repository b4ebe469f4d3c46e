[package]
name = "minecraft_protocol"
version = "0.1.0"
edition = "2021"
publish = false

[dependencies]
aes = "0.7"
cfb8 = "0.7"
openssl = "0.10"
rand = "0.8"
mojang-api = "*"
serde_json = "1"
tokio = { version = "1", features = ["rt", "macros", "net", "io-util"] }
reqwest = "*"
uuid = "1"
