[package]
name = "ecpay"
version = "0.1.0"
edition = "2021"
publish = false

[dependencies]
chrono = "0.4"
error-stack = "0.5"
hex = "0.4"
hyperswitch_masking = "*"
serde = { version = "1", features = ["derive"] }
sha2 = "0.10"
url = "2"
