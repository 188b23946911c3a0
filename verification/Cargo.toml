[package]
name = "magistrax"
version = "0.1.0"
edition = "2021"
publish = false

[dependencies]
dioxus = { version = "=0.2.4", features = ["fermi"] }
dioxus-desktop = "=0.2.3"
log = "=0.4.34"
platform-dirs = "=0.3.0"
rand = "=0.8.8"
serde = { version = "=1.0.229", features = ["derive"] }
serde_json = "=1.0.154"
simplelog = "=0.12.2"
