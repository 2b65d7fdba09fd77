[package]
name = "nada"
version = "0.1.0"
edition = "2021"
publish = false

[dependencies]
atomic_float = "1"
clap = { version = "4", features = ["derive"] }
foundations = "*"
futures = "0.3"
log = "0.4"
octets = "*"
quiche = "*"
rand = "0.8"
serde_json = "1"
sfv = "*"
tokio = { version = "1", features = ["full"] }
