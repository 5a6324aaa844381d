[package]
name = "lol_desktop_assistant"
version = "0.1.0"
edition = "2021"
publish = false

[dependencies]
serde = { version = "1", features = ["derive"] }
serde_json = "1"
rusqlite = { version = "0.32", features = ["bundled"] }
reqwest = { version = "0.12", default-features = false, features = ["blocking", "json", "rustls-tls"] }
sysinfo = "0.33"
tokio = { version = "1", features = ["rt-multi-thread", "time"] }
tokio-util = "0.7"
