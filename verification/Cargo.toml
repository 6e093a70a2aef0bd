[package]
name = "prof_rs"
version = "0.1.0"
edition = "2021"
publish = false

[dependencies]
sessionless = "*"
uuid = { version = "*", features = ["v4"] }
reqwest = { version = "*", default-features = false, features = ["multipart"] }

[dev-dependencies]
serde_json = "*"
