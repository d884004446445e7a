[package]
name = "first_success"
version = "0.1.0"
edition = "2021"
publish = false

[dependencies]
async-trait = "0.1"
futures = "0.3"
rand = "0.8"
thiserror = "1"
tokio = { version = "1", features = ["time", "rt-multi-thread", "macros"] }
