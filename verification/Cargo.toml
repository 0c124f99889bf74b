[package]
name = "jpk23"
version = "0.1.0"
edition = "2021"
publish = false

[dependencies]
quick-xml = "=0.37.5"
clap = { version = "=4.6.7", features = ["derive"] }
anyhow = "=1.0.104"
