[package]
name = "ttrpgtui"
version = "0.1.0"
edition = "2021"
publish = false

[dependencies]
undo = "*"
ratatui-textarea = "*"
ratatui = "*"
crossterm = "*"
tokio = { version = "*", features = ["rt-multi-thread", "macros", "sync", "time"] }
clap = { version = "*", features = ["derive"] }
color-eyre = "*"
serde = { version = "*", features = ["derive"] }
ron = "*"
chrono = "*"
reqwest = { version = "*", default-features = false, features = ["blocking", "json", "rustls-tls"] }
strum = { version = "*", features = ["derive"] }
