[package]
name = "tiny_dynamo"
version = "0.1.0"
edition = "2021"
publish = false

[dependencies]
chrono = "0.4"
hex = "0.4"
hmac = "0.12"
sha2 = "0.10"
http = "1"
reqwest = { version = "0.12", default-features = false, features = ["blocking"] }
fastly = "*"
