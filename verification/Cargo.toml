[package]
name = "prism"
version = "0.1.0"
edition = "2021"
publish = false

[dependencies]
serde = { version = "1", features = ["derive"] }
serde_json = "1"
base64 = "0.22"
image = { version = "0.25", default-features = false, features = ["png"] }
rusqlite = { version = "0.32", features = ["bundled"] }
sysinfo = "0.35"
reqwest = { version = "0.12", default-features = false, features = ["blocking", "json", "rustls-tls"] }
portable-pty = "0.9"
