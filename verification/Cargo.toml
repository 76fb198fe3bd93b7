[package]
name = "async_demo"
version = "0.1.0"
edition = "2021"
publish = false

[dependencies]
crossbeam = "0.7"
lazy_static = "1.4"
mio = "0.6"
spin = "0.5"
tokio = { version = "0.2", features = ["full"] }
