[package]
name = "debug_overlay"
version = "0.1.0"
edition = "2021"
publish = false

[dependencies]
anyhow = "=1.0.104"
chrono = "=0.4.45"
futures = "=0.3.34"
log = "=0.4.34"
mlua = { version = "=0.8.10", features = ["lua54", "vendored", "async", "send"] }
smol = "=1.3.0"
termwiz = "=0.23.3"
