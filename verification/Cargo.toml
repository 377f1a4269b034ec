[package]
name = "rid3"
version = "0.1.0"
edition = "2021"
publish = false

[dependencies]
anyhow = "1"
clap = "4"
colorsys = "0.6"
config = "0.13"
crossterm = "0.25"
directories = "4"
futures = "0.3"
id3 = "1"
log = "0.4"
notify = "5"
regex = "1"
serde = { version = "1", features = ["derive"] }
tokio = { version = "1", features = ["full"] }
toml = "0.5"
tui = "0.19"
