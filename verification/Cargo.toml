[package]
name = "tro"
version = "0.1.0"
edition = "2021"
publish = false

[dependencies]
regex = "*"
clap = "2"
dirs = "*"
log = "*"
simplelog = "*"
serde = { version = "*", features = ["derive"] }
simple-error = "*"
tempfile = "*"
toml = "*"
trello = "*"
