[package]
name = "emiko"
version = "0.1.0"
edition = "2021"
publish = false

[dependencies]
regex = "=1.13.1"
clap = { version = "=4.6.7", features = ["derive"] }
serde = { version = "=1.0.229", features = ["derive"] }
serde_json = "=1.0.154"
tokio = { version = "=1.54.1", features = ["macros", "rt-multi-thread", "process"] }
reqwest = { version = "=0.12.28", default-features = false, features = ["json", "rustls-tls"] }
arboard = { version = "=3.7.0", default-features = false }
