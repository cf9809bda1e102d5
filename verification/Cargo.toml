[package]
name = "mailpost"
version = "0.1.0"
edition = "2021"
publish = false

[dependencies]
mailparse = "=0.18.0"
mime_guess = "=2.0.5"
slug = "=0.1.6"
time = { version = "=0.3.55", features = ["formatting", "parsing", "macros"] }
clap = { version = "=4.6.7", features = ["derive", "env"] }
env_logger = "=0.11.11"
log = "=0.4.34"
serde = { version = "=1.0.229", features = ["derive"] }
serde_yaml = "=0.9.34"
tempfile = "=3.27.0"
thiserror = "=2.0.21"
tokio = { version = "=1.54.1", features = ["rt-multi-thread", "macros"] }
imap = "=2.4.1"
native-tls = "=0.2.18"

[dev-dependencies]
regex = "=1.13.1"
