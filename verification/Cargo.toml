[package]
name = "rustsdr"
version = "0.1.0"
edition = "2021"
publish = false

[dependencies]
num-complex = "0.4"
num-traits = "0.2"
rand = "0.8"
tokio = { version = "1", features = ["rt-multi-thread", "macros", "io-std", "io-util", "time"] }
tokio-util = { version = "0.7", features = ["codec", "io"] }
tokio-stream = "0.1"
futures = "0.3"
pin-project = "1"
