[package]
name = "bgp_config"
version = "0.1.0"
edition = "2021"
publish = false

[dependencies]
anyhow = "*"
clap = { version = "*", features = ["derive"] }
duration-string = "*"
serde = { version = "*", features = ["derive"] }
