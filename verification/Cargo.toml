[package]
name = "openaccounting"
version = "0.1.0"
edition = "2021"
publish = false

[dependencies]
rust_decimal = "=1.43.0"
chrono = "=0.4.45"
uuid = { version = "=1.29.0", features = ["v4"] }
hmac = "=0.12.1"
sha2 = "=0.10.9"
hex = "=0.4.3"
rand = "=0.8.8"
form_urlencoded = "=1.2.2"
serde = { version = "=1.0.229", features = ["derive"] }
serde_json = "=1.0.154"
time = "=0.3.55"
printpdf = { version = "=0.7.0", default-features = false }
csv = "1"
