[package]
name = "mailpane"
version = "0.1.0"
edition = "2021"
publish = false

[dependencies]
linkify = "0.8"
serde = { version = "1", features = ["derive"] }
serde_json = "1"
crossterm = "0.23"
tui = "0.18"
clap = { version = "3", features = ["derive"] }
open = "2"
