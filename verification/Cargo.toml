[package]
name = "onerom_cli"
version = "0.1.0"
edition = "2021"
publish = false

[dependencies]
log = "0.4"
onerom-config = "=0.4.13"
onerom-fw = "0.1"
onerom-gen = "=0.5.12"
reqwest = { version = "0.12", default-features = false, features = ["json", "rustls-tls"] }
sdrr-fw-parser = "=0.6.15"
serde = { version = "1", features = ["derive"] }
serde_json = "1"
thiserror = "2"
