[package]
name = "ble_bridge"
version = "0.1.0"
edition = "2021"
publish = false

[dependencies]
btleplug = "=0.11.8"
futures = "=0.3.34"
log = "=0.4.34"
simple-logging = "=2.0.2"
tokio = { version = "=1.54.1", features = ["rt-multi-thread", "sync"] }
uuid = "=1.29.0"
