[package]
name = "termstage"
version = "0.1.0"
edition = "2021"
publish = false

[dependencies]
anyhow = "1"
axum = { version = "0.8", features = ["ws"] }
bytes = "1"
clap = { version = "4", features = ["derive"] }
futures-util = "0.3"
getrandom = "0.3"
open = "5"
portable-pty = "*"
rmux-sdk = "*"
rustix = { version = "1", features = ["termios", "process", "stdio"] }
serde = { version = "1", features = ["derive"] }
serde_json = "1"
subtle = "2"
thiserror = "2"
tokio = { version = "1", features = ["full"] }
tracing = "0.1"
tracing-subscriber = { version = "0.3", features = ["env-filter"] }
url = "2"
which = "*"
