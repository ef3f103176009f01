[package]
name = "docmost_local_mcp"
version = "0.1.0"
edition = "2021"
publish = false

[dependencies]
aes-gcm = "0.10"
anyhow = "1"
axum = "0.8"
base64 = "0.22"
chrono = "0.4"
dirs = "6"
futures = "0.3"
keyring = "3"
open = "5"
pulldown-cmark = { version = "0.13", default-features = false }
regex = "1"
reqwest = { version = "0.12", default-features = false, features = ["json", "multipart", "rustls-tls"] }
rmcp = { version = "*", features = ["server", "macros", "transport-io"] }
schemars = "*"
serde = { version = "1", features = ["derive"] }
serde_json = "1"
tokio = { version = "1", features = ["full"] }
urlencoding = "2"
