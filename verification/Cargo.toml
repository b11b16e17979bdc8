[package]
name = "rmap"
version = "0.1.0"
edition = "2021"
publish = false

[dependencies]
ipnet = "=2.12.2"
rand = "=0.8.8"
hashbrown = "=0.15.5"
hex = "=0.4.3"
clap = { version = "=4.6.7", features = ["derive"] }
comfy-table = "=7.2.2"
polars = { version = "=0.46.0", default-features = false, features = ["csv"] }
pnet = "=0.35.0"
serde = { version = "=1.0.229", features = ["derive"] }
serde_json = "=1.0.154"
bincode = "=1.3.3"
ratatui = "0.29"
crossterm = "0.28"
