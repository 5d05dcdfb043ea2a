[package]
name = "late_ssh"
version = "0.1.0"
edition = "2021"
publish = false

[dependencies]
rand = "0.8"
chrono = "0.4"
uuid = { version = "1", features = ["v7"] }
unicode-width = "0.2"
blake3 = "1"
serde = { version = "1", features = ["derive"] }
serde_json = "1"
ratatui = "0.29"
tokio = { version = "1", features = ["sync", "rt", "macros", "time", "process", "io-util"] }
vt100 = "0.15"
nix = { version = "0.29", features = ["term"] }
anyhow = "1"
tracing = "0.1"
russh = "*"
