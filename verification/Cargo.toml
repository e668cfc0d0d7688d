[package]
name = "bichon_autoconfig"
version = "0.1.0"
edition = "2021"
publish = false

[dependencies]
regex = "1"
url = "2"
reqwest = { version = "0.11", default-features = false, features = ["rustls-tls"] }
trust-dns-resolver = "0.22"
serde = { version = "1", features = ["derive"] }
serde-xml-rs = "0.6"
tokio = { version = "1", features = ["rt-multi-thread", "macros", "signal", "time"] }
futures = "0.3"
bytes = "1"
