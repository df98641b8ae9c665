[package]
name = "denon_avr_remote"
version = "0.1.0"
edition = "2021"
publish = false

[dependencies]
quick-xml = "=0.41.0"
serde = { version = "=1.0.229", features = ["derive"] }
serde_yaml = "=0.9.34"
toml = "=1.1.8"
tokio = { version = "=1.54.1", features = ["full"] }
directories = "=6.0.0"
if-addrs = "*"
