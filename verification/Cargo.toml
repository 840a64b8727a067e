[package]
name = "tgcloud"
version = "0.1.0"
edition = "2021"
publish = false

[dependencies]
sha2 = "=0.10.9"
hex = "=0.4.3"
rand = "=0.8.8"
uuid = { version = "=1.27.0", features = ["v4"] }
tokio = { version = "=1.53.2", features = ["full"] }
tokio-util = { version = "0.7", features = ["codec"] }
reqwest = { version = "=0.13.5", features = ["json", "multipart", "stream", "form"] }
mongodb = "=3.9.1"
futures = "0.3"
serde = { version = "1", features = ["derive"] }
serde_json = "1"
chrono = "0.4"
clap = { version = "4", features = ["derive"] }
dotenv = "0.15"
dirs = "*"
anyhow = "1"
regex = "1"
indicatif = "*"
console = "*"
comfy-table = "*"
owo-colors = "*"
human_bytes = "*"
