[package]
name = "bulloak"
version = "0.1.0"
edition = "2021"
publish = false

[dependencies]
anyhow = "1"
bulloak-foundry = "*"
bulloak-syntax = "*"
clap = { version = "4", features = ["derive"] }
figment = "*"
owo-colors = "*"
serde = { version = "1", features = ["derive"] }
syn = { version = "2", features = ["full"] }
