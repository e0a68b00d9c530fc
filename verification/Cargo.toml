[package]
name = "bbs_core"
version = "0.1.0"
edition = "2021"
publish = false

[dependencies]
base64 = "=0.13.1"
scraper = "=0.27.0"
reqwest = { version = "=0.13.5", default-features = false, features = ["blocking", "cookies", "form"] }
reqwest_cookie_store = "=0.10.0"
cookie_store = "=0.22.1"
keyring = "=4.2.0"
serde = { version = "*", features = ["derive"] }
serde_json = "*"
url = "*"
