[package]
name = "peekable"
version = "0.6.1"
edition = "2021"
publish = false

[dependencies]
bytes = "1"
futures-util = { version = "0.3", default-features = false, features = ["io", "std"] }
pin-project-lite = "0.2"
smallvec = "1"
tinyvec = { version = "1", features = ["alloc"] }
tokio = { version = "1", features = ["io-util"] }
