[package]
name = "trsync"
version = "0.1.0"
edition = "2021"
publish = false

[dependencies]
crossbeam-channel = "=0.5.17"
notify = "=4.0.18"
walkdir = "=2.5.0"
rusqlite = { version = "=0.41.1", features = ["bundled"] }
serde = "=1.0.229"
serde_derive = "=1.0.229"
serde_json = "=1.0.154"
structopt = "=0.3.26"
rust-ini = "=0.21.3"
dirs = "=7.0.0"
rpassword = "=7.5.4"
tempfile = "=3.27.0"
reqwest = { version = "=0.12.28", default-features = false, features = ["blocking", "json", "multipart", "rustls-tls"] }
