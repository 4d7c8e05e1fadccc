[package]
name = "swash"
version = "0.1.0"
edition = "2021"
publish = false

[dependencies]
regex = "=1.13.1"
html-escape = "=0.2.15"
serde = { version = "=1.0.229", features = ["derive"] }
serde_json = "=1.0.154"
quick-xml = { version = "=0.37.5", features = ["serialize", "async-tokio"] }
async-compression = { version = "=0.4.52", features = ["tokio", "gzip"] }
tokio = { version = "=1.54.1", features = ["macros", "rt-multi-thread", "fs", "io-util"] }
tokio-util = { version = "=0.7.20", features = ["io"] }
futures = "=0.3.34"
reqwest = { version = "=0.12.28", default-features = false, features = ["stream", "rustls-tls"] }
sqlx = { version = "=0.8.6", default-features = false, features = ["runtime-tokio", "postgres", "json"] }
clap = "=4.6.7"
log = "=0.4.35"
dotenv = "=0.15.0"
uuid = { version = "=1.29.1", features = ["v4"] }
env_logger = { version = "0.11", default-features = false }
