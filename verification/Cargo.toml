[package]
name = "relay_gateway"
version = "0.1.0"
edition = "2021"
publish = false

[dependencies]
actix = "=0.13.5"
actix-rt = "=2.15.0"
actix-web = { version = "=4.18.1", default-features = false, features = ["ws"] }
actix-web-actors = "=4.3.1"
awc = { version = "=3.11.0", default-features = false, features = ["openssl"] }
env_logger = "=0.11.11"
futures = "=0.3.34"
openssl = "=0.10.81"
