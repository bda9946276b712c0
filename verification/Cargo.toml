[package]
name = "cubic"
version = "0.1.0"
edition = "2021"
publish = false

[dependencies]
chrono = "0.4"
directories = "6"
futures-util = "0.3"
hex = "0.4"
keyring = { version = "3", features = ["linux-native"] }
md-5 = "0.10"
open = "5"
parking_lot = "0.12"
reqwest = { version = "0.12", default-features = false, features = ["json", "stream", "rustls-tls"] }
serde = { version = "1", features = ["derive"] }
serde_json = "1"
sha1 = "0.10"
thiserror = "2"
tokio = { version = "1", features = ["full"] }
tokio-util = "0.7"
url = "2"
uuid = { version = "1", features = ["v4"] }
