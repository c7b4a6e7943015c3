[package]
name = "rsup"
version = "0.3.0"
edition = "2021"
publish = false

[dependencies]
semver = "1"
regex = "1"
serde = { version = "1", features = ["derive"] }
serde_derive = "1"
serde_json = "1"
serde_yaml = "0.9"
toml = "0.8"
clap = { version = "4", features = ["derive"] }
tokio = { version = "1", features = ["full"] }
reqwest = { version = "0.12", default-features = false, features = ["rustls-tls", "stream"] }
actix-web = "4"
actix-ws = "0.3"
actix-cors = "0.7"
actix-files = "0.6"
futures-util = "0.3"
flate2 = "1"
tar = "0.4"
indicatif = "0.17"
dialoguer = "0.11"
rand = "0.8"
local-ip-address = "0.6"
webbrowser = "1"
once_cell = "1"
anyhow = "1"
