[package]
name = "from_row_core"
version = "0.1.0"
edition = "2021"
publish = false

[dependencies]
similar = "*"
tokio-postgres = "*"
