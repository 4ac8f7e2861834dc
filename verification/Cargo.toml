[package]
name = "binocle"
version = "0.1.0"
edition = "2021"
publish = false

[dependencies]
anyhow = "=1.0.104"
clap = { version = "=4.6.7", features = ["derive"] }
colorgrad = { version = "=0.9.0", features = ["preset"] }
memmap2 = "=0.9.11"
