[package]
name = "croft"
version = "0.1.0"
edition = "2021"
publish = false

[dependencies]
anyhow = "1"
async-trait = "0.1"
clap = { version = "4", features = ["derive"] }
clap_complete = "4"
comfy-table = "7"
crossterm = "0.28"
globset = "0.4"
hex = "0.4"
json5 = "0.4"
notify = "6"
nucleo-matcher = "0.3"
ratatui = "0.29"
regex = "1"
reqwest = { version = "0.12", default-features = false }
serde = { version = "1", features = ["derive"] }
serde_json = "1"
serde_yaml_ng = "0.10"
sha2 = "0.10"
shell-words = "1"
thiserror = "2"
tokio = { version = "1", features = ["full"] }
toml = "0.8"
toml_edit = "0.22"
tracing = "0.1"
walkdir = "2"
which = "7"
