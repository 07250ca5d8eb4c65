[package]
name = "forwarder"
version = "0.1.0"
edition = "2021"
publish = false

[dependencies]
html-escape = "*"
once_cell = "*"
regex = "*"
reqwest = { version = "*", default-features = false, features = ["json"] }
serde = { version = "*", features = ["derive"] }
serde_json = "*"
url = "*"
urlencoding = "*"
worker = "*"
