[package]
name = "stamon"
version = "0.1.0"
edition = "2021"
publish = false

[dependencies]
argon2 = "*"
jsonwebtoken = "*"
serde_json = "*"
serde = { version = "*", features = ["derive"] }
reqwest = { version = "*", default-features = false, features = ["blocking", "native-tls"] }
ping-rs = "*"
openssl = "*"
