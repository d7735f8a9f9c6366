[package]
name = "mdslides"
version = "0.1.0"
edition = "2021"
publish = false

[dependencies]
clap = { version = "4", features = ["derive"] }
comrak = { version = "0.18", default-features = false }
env_logger = "0.10"
graphviz-rust = "*"
log = "0.4"
pulldown-cmark = { version = "0.9", default-features = false }
thiserror = "1"
toml = "0.7"
