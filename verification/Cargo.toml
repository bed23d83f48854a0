[package]
name = "cyberpunk_display"
version = "0.1.0"
edition = "2021"
publish = false

[dependencies]
ansi_term = "*"
chrono = "*"
clap = { version = "*", features = ["derive"] }
futures = "*"
log = "*"
reqwest = { version = "*", default-features = false, features = ["json"] }
serde_json = "*"
serialport = { version = "*", default-features = false }
simplelog = "*"
tokio = { version = "*", features = ["rt-multi-thread", "macros", "time", "net", "sync"] }
tokio-tungstenite = "*"
url = "*"
