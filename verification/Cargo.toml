[package]
name = "pop_os_api"
version = "0.1.0"
edition = "2021"
publish = false

[dependencies]
serde_json = "*"
isahc = "*"
clap = "*"
fomat-macros = "*"
anyhow = "*"
futures = "*"
