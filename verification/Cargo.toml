[package]
name = "session_store"
version = "0.1.0"
edition = "2021"
publish = false

[dependencies]
uuid = { version = "=1.27.0", features = ["v4"] }
tokio = { version = "=1.53.2", features = ["sync", "rt", "macros", "rt-multi-thread"] }
async-trait = "=0.1.92"
