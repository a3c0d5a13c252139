[package]
name = "price_feed"
version = "0.1.0"
edition = "2021"
publish = false

[dependencies]
actix-web = "4"
base64 = "0.22"
crab_nbt = "*"
flate2 = "1"
serde_json = "1"
tokio = { version = "1", features = ["full"] }
ureq = "3"
