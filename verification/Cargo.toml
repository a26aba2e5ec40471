[package]
name = "gitui"
version = "0.1.0"
edition = "2021"
publish = false

[dependencies]
anyhow = "=1.0.104"
crossbeam = "=0.8.5"
crossterm = "=0.29.0"
devicons = "=0.6.13"
enum-map = "=3.1.0"
gix = { version = "=0.90.0", default-features = false, features = ["status", "sha1"] }
ratatui = "=0.30.2"
rayon = "=1.12.0"
