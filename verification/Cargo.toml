[package]
name = "orredis"
version = "0.1.0"
edition = "2021"
publish = false

[dependencies]
async-trait = "0.1"
chrono = "=0.4.45"
mobc = "0.8"
r2d2 = "=0.8.10"
redis = { version = "=0.22.4", features = ["r2d2", "aio", "tokio-comp"] }
