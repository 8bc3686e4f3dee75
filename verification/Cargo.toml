[package]
name = "relax_player"
version = "0.2.0"
edition = "2021"
publish = false

[dependencies]
anyhow = "1"
crossterm = "0.28"
ratatui = "0.29"
directories = "5"
flate2 = "1"
tar = "0.4"
rodio = { version = "0.19", default-features = false }
