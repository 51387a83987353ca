[package]
name = "hotdownloader_core"
version = "0.1.0"
edition = "2021"
publish = false

[dependencies]
flate2 = "*"
rand = "0.9"
serde = { version = "1", features = ["derive"] }
serde_json = "1"
tokio = { version = "1", features = ["full"] }
reqwest = { version = "0.12", default-features = false, features = ["json", "rustls-tls", "stream"] }
futures-util = "0.3"
log = "0.4"
lofty = "0.22"
hyper = { version = "1", features = ["server", "http1"] }
hyper-util = { version = "0.1", features = ["tokio"] }
http-body-util = "0.1"
bytes = "1"
once_cell = "1"
regex = "1"
