[package]
name = "http_load_tester"
version = "0.1.0"
edition = "2021"
publish = false

[dependencies]
clap = { version = "=4.6.7", features = ["derive"] }
csv = "=1.4.0"
futures = "=0.3.34"
goose = "=0.18.1"
reqwest = { version = "=0.12.28", features = ["gzip", "brotli"] }
serde = { version = "=1.0.229", features = ["derive"] }
tokio = { version = "=1.54.1", features = ["macros", "rt-multi-thread", "fs", "time"] }

[dev-dependencies]
approx = "=0.5.1"
regex = "=1.13.1"
