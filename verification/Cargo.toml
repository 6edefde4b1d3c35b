[package]
name = "vk_rust_tui"
version = "0.1.0"
edition = "2021"
publish = false

[dependencies]
url = "2"
urlencoding = "2"
rand = "0.8"
async-trait = "0.1"
crossterm = { version = "0.28", features = ["serde"] }
ratatui = "0.29"
tokio = { version = "1", features = ["macros", "rt-multi-thread"] }
reqwest = { version = "0.12", default-features = false, features = ["json", "rustls-tls"] }
serde = { version = "1", features = ["derive"] }
serde_json = "1"
toml = "0.8"
dirs = "5"
open = "5"
