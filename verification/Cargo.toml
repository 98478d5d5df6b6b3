[package]
name = "vibetunnel_pty"
version = "0.1.0"
edition = "2021"
publish = false

[dependencies]
portable-pty = "*"
nix = { version = "*", features = ["signal"] }
uuid = { version = "*", features = ["v4"] }
chrono = "*"
serde = { version = "*", features = ["derive"] }
serde_json = "*"
tokio = { version = "*", features = ["rt", "rt-multi-thread", "io-util", "io-std", "net", "time", "signal", "macros", "sync"] }
crossterm = "*"
ctrlc = "*"
dirs = "*"
clap = { version = "*", features = ["derive"] }
anyhow = "*"
