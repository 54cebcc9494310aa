[package]
name = "catch"
version = "0.1.0"
edition = "2021"
publish = false

[dependencies]
actix-web = "=4.18.1"
awc = "=3.11.0"
actix-multipart = "=0.7.2"
futures-util = "=0.3.34"
maud = { version = "=0.27.0", features = ["actix-web"] }
log = "=0.4.35"
env_logger = "=0.11.11"
serde = { version = "=1.0.229", features = ["derive"] }
serde_json = "=1.0.154"
uuid = { version = "=1.29.1", features = ["v4"] }
chrono = "=0.4.45"
mime_guess = "=2.0.5"
base64 = "=0.22.1"
xshell = "=0.2.7"
getrandom = "=0.4.3"
