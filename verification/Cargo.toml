[package]
name = "arch_sunshine"
version = "0.1.0"
edition = "2021"
publish = false

[dependencies]
anyhow = "1"
clap = { version = "4", features = ["derive", "env"] }
crossterm = { version = "0.28", features = ["event-stream"] }
futures = "0.3"
libc = "0.2"
linemux = "0.3"
nix = { version = "0.29", features = ["signal", "process", "fs", "user"] }
once_cell = "1"
portable-pty = "0.8"
ratatui = "0.29"
reqwest = { version = "0.12", default-features = false, features = ["blocking", "rustls-tls"] }
serde = { version = "1", features = ["derive"] }
serde_json = "1"
tokio = { version = "1", features = ["full"] }
tui-term = "0.2"
vt100 = "0.15"
zbus = "4"
