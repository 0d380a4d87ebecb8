[package]
name = "lm_agent"
version = "0.1.0"
edition = "2021"
publish = false

[dependencies]
rust-stemmers = "1"
unicode-segmentation = "1"
meval = "0.2"
serde = { version = "1", features = ["derive"] }
serde_json = "1"
schemars = "*"
chrono = "0.4"
uuid = { version = "1", features = ["v4"] }
clap = { version = "4", features = ["derive", "env"] }
thiserror = "*"
ratatui = { version = "*", features = ["termion"] }
termion = "*"
