[package]
name = "spacetimedb_lib"
version = "0.1.0"
edition = "2021"
publish = false

[dependencies]
anyhow = "1"
clap = "4"
hex = "0.4"
hyper = { version = "1", features = ["client", "http1"] }
native-tls = "0.2"
openssl = "0.10"
reqwest = { version = "0.12", default-features = false }
tokio = { version = "1", features = ["fs", "io-util", "rt"] }
zeroize = "1"
