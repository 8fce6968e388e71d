[package]
name = "gpapi"
version = "0.1.0"
edition = "2021"
publish = false

[dependencies]
roxmltree = "=0.21.1"
reqwest = { version = "=0.13.5", default-features = false, features = ["form"] }
dns-lookup = "=4.0.2"
serde = { version = "=1.0.229", features = ["derive"] }
log = "=0.4.34"
anyhow = "=1.0.104"
