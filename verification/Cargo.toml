[package]
name = "uniffi"
version = "0.1.0"
edition = "2021"
publish = false

[dependencies]
anyhow = "=1.0.104"
askama = "=0.12.1"
camino = "=1.2.6"
fs-err = "=2.11.0"
proc-macro2 = "=1.0.107"
quote = "=1.0.47"
syn = { version = "=1.0.109", features = ["full"] }
thiserror = "=1.0.69"

[dev-dependencies]
once_cell = "=1.21.4"
