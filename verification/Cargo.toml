[package]
name = "air_sensors"
version = "0.1.0"
edition = "2021"
publish = false

[dependencies]
anyhow = "=1.0.104"
embedded-hal = "=1.0.0"
embedded-io = "=0.7.1"
embedded-svc = "=0.29.0"
esp-idf-hal = "=0.47.0"
esp-idf-svc = "=0.53.0"
log = "=0.4.34"
