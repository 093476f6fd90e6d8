[package]
name = "benilla"
version = "0.1.0"
edition = "2021"
publish = false

[dependencies]
anyhow = "1"
mlua = { version = "0.10", features = ["lua51", "vendored"] }
