[package]
name = "llamachat"
version = "0.1.0"
edition = "2021"
publish = false

[dependencies]
serde = { version = "1", features = ["derive"] }
serde_json = "1"
anyhow = "1"
clap = { version = "4", features = ["derive"] }
ratatui = "0.29"
crossterm = "0.28"
ureq = "2"
chrono = "0.4"
dirs = "5"
sysinfo = "0.33"
base64 = "0.22"
image = { version = "0.25", default-features = false, features = ["png"] }
rusqlite = { version = "0.32", features = ["bundled"] }
reqwest = { version = "0.12", default-features = false, features = ["blocking", "json"] }
tokio = { version = "1", features = ["rt"] }
x11rb = { version = "0.13", features = ["xtest"] }

[dev-dependencies]
tempfile = "3"
