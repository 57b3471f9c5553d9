[package]
name = "bearcds"
version = "0.1.0"
edition = "2021"
publish = false

[dependencies]
anyhow = "1"
base64 = "0.22"
bollard = "0.16"
clap = { version = "4", features = ["derive"] }
colored = "2"
dotenvy = "0.15"
flate2 = "1"
futures = "0.3"
lazy_static = "1"
serde = { version = "1", features = ["derive"] }
serde_json = "1"
tar = "0.4"
temp-dir = "0.1"
tokio = { version = "1", features = ["macros", "rt-multi-thread"] }
toml = "0.8"
ureq = { version = "2", features = ["json"] }
