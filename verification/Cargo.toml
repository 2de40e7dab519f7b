[package]
name = "rulmee"
version = "0.1.0"
edition = "2021"
publish = false

[dependencies]
chrono = "*"
clap = { version = "*", features = ["derive", "env"] }
crossterm = "*"
freedesktop = "*"
libc = "*"
log = "*"
nix = { version = "*", features = ["fs", "process", "signal", "term", "ioctl", "hostname", "user"] }
pam-client2 = "*"
ratatui = "*"
serde = { version = "*", features = ["derive"] }
serde_ignored = "*"
signal-hook = "*"
strum = "*"
strum_macros = "*"
toml = "*"
tracing = "*"
tracing-appender = "*"
tracing-log = "*"
tracing-subscriber = { version = "*", features = ["env-filter"] }
tui-input = "*"
uzers = "*"
