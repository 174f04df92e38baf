[package]
name = "submarine"
version = "0.1.0"
edition = "2021"
publish = false

[dependencies]
anyhow = "1"
bme280 = "0.2"
chrono = "0.4"
crc = "3"
embedded-hal = "0.2"
flexi_logger = "0.16"
futures = "0.3"
itertools = "0.10"
lazy_static = "1"
libc = "0.2"
linux-embedded-hal = "0.3"
log = "0.4"
mcp23017 = "1"
prometheus = "0.13"
prometheus_exporter = "0.8"
pwm-pca9685 = "0.3"
rand = "0.8"
reqwest = { version = "0.11", default-features = false }
rppal = "0.12"
serde = { version = "1", features = ["derive"] }
serde_yaml = "0.8"
spidev = "0.4"
tokio = { version = "1", features = ["full"] }
warp = { version = "0.3", default-features = false }
