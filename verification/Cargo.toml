[package]
name = "minesofrust"
version = "0.1.0"
edition = "2021"
publish = false

[dependencies]
anyhow = "1"
chrono = "0.4"
dirs = "5"
egui = "0.27"
egui_extras = "0.27"
itertools = "0.12"
rand = "0.8"
serde = { version = "1", features = ["derive"] }
toml = "0.8"
whoami = "1"
