[package]
name = "ptr_plugins"
version = "0.1.0"
edition = "2021"
publish = false

[dependencies]
anyhow = "=1.0.104"
clap = { version = "=4.6.7", features = ["derive"] }
clap_complete = "=4.6.11"
colored = "=3.1.1"
regex = "=1.13.1"
reqwest = { version = "=0.12.28", default-features = false, features = ["blocking", "json", "rustls-tls"] }
self-replace = "=1.5.0"
serde = { version = "=1.0.229", features = ["derive"] }
serde_json = "=1.0.154"
tabwriter = "=1.4.1"
toml = "=1.1.8"
windows = { version = "=0.58.0", features = ["Win32_Foundation", "Win32_System_Threading", "Win32_UI_Shell", "Win32_System_Registry"] }
zip = { version = "=9.0.5", default-features = false, features = ["deflate"] }
