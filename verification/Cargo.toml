[package]
name = "trust0"
version = "0.1.0"
edition = "2021"
publish = false

[dependencies]
anyhow = "1"
clap = { version = "4", features = ["derive", "env"] }
dnsclient = "0.1"
mio = { version = "0.8", features = ["net", "os-poll"] }
oid-registry = "0.6"
regex = "1"
rustls = "0.22"
serde = { version = "1", features = ["derive"] }
serde_json = "1"
x509-parser = "0.15"
