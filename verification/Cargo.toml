[package]
name = "atomic_bomb_engine"
version = "0.1.0"
edition = "2021"
publish = false

[dependencies]
anyhow = "=1.0.104"
dashmap = "=6.2.1"
futures = "=0.3.34"
handlebars = "=6.4.4"
histogram = "=1.6.4"
jsonpath_lib = "=0.3.0"
os_info = "3"
parking_lot = "=0.12.5"
rand = "=0.8.8"
reqwest = { version = "0.12", default-features = false, features = ["json", "stream", "multipart", "cookies"] }
serde_json = "=1.0.154"
tokio = { version = "=1.54.1", features = ["full"] }
tokio-tungstenite = "=0.30.0"
url = "=2.5.8"
uuid = { version = "=1.29.0", features = ["v4"] }
