[package]
name = "mailtui"
version = "0.1.0"
edition = "2021"
publish = false

[dependencies]
base64 = "=0.22.1"
oauth2 = { version = "=4.4.2", default-features = false }
sha2 = "0.10"
crossterm = "0.28"
dirs = "5"
dotenv = "0.15"
once_cell = "1"
open = "5"
ratatui = "0.28"
reqwest = { version = "0.12", default-features = false, features = ["blocking", "json", "rustls-tls"] }
serde = { version = "1", features = ["derive"] }
serde_json = "1"
tiny_http = "0.12"
url = "2"
