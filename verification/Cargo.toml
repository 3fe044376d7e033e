[package]
name = "async_duplex_channel"
version = "0.1.0"
edition = "2021"
publish = false

[dependencies]
futures = "0.3"
sharded-slab = "0.1"
thiserror = "1"
tokio = { version = "1", features = ["rt-multi-thread", "macros", "sync", "time"] }
