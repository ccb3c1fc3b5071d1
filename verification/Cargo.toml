[package]
name = "flymd_storage"
version = "0.1.0"
edition = "2021"
publish = false

[dependencies]
sha2 = "*"
hmac = "*"
hex = "*"
url = "*"
serde_json = "*"
chrono = "*"
serde = { version = "*", features = ["derive"] }
reqwest = { version = "*", default-features = false, features = ["json", "multipart"] }
futures-util = "*"
trash = "*"
