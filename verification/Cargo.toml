[package]
name = "quandl_v3"
version = "0.1.0"
edition = "2021"
publish = false

[dependencies]
csv = "=1.4.0"
num_cpus = "=1.17.0"
reqwest = { version = "=0.12.28", default-features = false, features = ["blocking", "rustls-tls"] }
serde = { version = "=1.0.229", features = ["derive"] }
serde_json = "=1.0.154"
zip = { version = "=2.6.1", default-features = false, features = ["deflate"] }
