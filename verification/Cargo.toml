[package]
name = "oak_runtime"
version = "0.1.0"
edition = "2021"
publish = false

[dependencies]
wasmi = "*"
structopt = "*"
toml = "*"
serde = "*"
serde_derive = "*"
signal-hook = "*"
anyhow = "*"
log = "*"

[dev-dependencies]
wat = "*"
