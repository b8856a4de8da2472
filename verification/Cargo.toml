[package]
name = "emenu"
version = "0.1.0"
edition = "2021"
publish = false

[dependencies]
nucleo = "=0.5.0"
egui = "=0.28.1"
clap = { version = "=4.5.61", features = ["derive"] }
anyhow = "=1.0.104"
atty = "=0.2.14"
font-kit = "=0.14.3"
