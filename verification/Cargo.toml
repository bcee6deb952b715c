[package]
name = "mira"
version = "0.1.0"
edition = "2021"
publish = false

[dependencies]
uuid = { version = "=1.29.0", features = ["v4", "v5"] }
url = "=2.5.8"
chrono = "=0.4.45"
image = { version = "=0.25.10", default-features = false, features = ["jpeg"] }
openh264 = "=0.9.9"
tokio = { version = "=1.54.1", features = ["full"] }
tokio-util = "=0.7.20"
reqwest = { version = "=0.12.28", default-features = false, features = ["json", "rustls-tls"] }
serde = { version = "=1.0.229", features = ["derive"] }
async-trait = "=0.1.92"
dashmap = "=6.2.1"
poise = "=0.6.2"
sqlx = { version = "=0.8.6", default-features = false, features = ["sqlite", "runtime-tokio"] }
str0m = "=0.25.0"
thiserror = "=2.0.21"
