[package]
name = "milk_and_cookies"
version = "0.1.0"
edition = "2021"
publish = false

[dependencies]
axum = "0.7"
rand = "0.8"
tokio = { version = "1", features = ["macros", "net", "rt-multi-thread", "sync"] }
