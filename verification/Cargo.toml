[package]
name = "phone_validation"
version = "0.1.0"
edition = "2021"
publish = false

[dependencies]
phonenumber = "0.3"
urlencoding = "2"
csv = "1"
serde = { version = "1", features = ["derive"] }
serde_json = "1"
reqwest = "0.12"
tokio = { version = "1", features = ["full"] }
ctrlc = "3"
async-mutex = "1"
