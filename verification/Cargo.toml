[package]
name = "jeebs_core"
version = "0.1.0"
edition = "2021"
publish = false

[dependencies]
base64 = "*"
blake3 = "*"
chrono = "*"
flate2 = "*"
hex = "*"
md-5 = "*"
meval = "*"
rand = "*"
regex = "*"
reqwest = { version = "*", default-features = false, features = ["blocking", "json", "rustls-tls"] }
scraper = "*"
serde = { version = "*", features = ["derive"] }
serde_json = "*"
sha2 = "*"
urlencoding = "*"
