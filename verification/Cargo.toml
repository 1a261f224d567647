[package]
name = "gitnr"
version = "0.1.0"
edition = "2021"
publish = false

[dependencies]
url = "2"
anyhow = "1"
clap = { version = "4", features = ["derive"] }
copypasta = "0.10"
dirs = "5"
human-panic = "1"
indoc = "2"
native-tls = "0.2"
once_cell = "1"
ratatui = "0.29"
serde = { version = "1", features = ["derive"] }
serde_json = "1"
tui-input = "0.14"
ureq = { version = "2", features = ["native-tls"] }
yansi = "1"
