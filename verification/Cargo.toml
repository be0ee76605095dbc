[package]
name = "modbus_rtu"
version = "0.1.0"
edition = "2021"
publish = false

[dependencies]
bytes = "0.5"
futures = "0.3"
futures-util = "0.3"
tokio-serial = { version = "4.3", default-features = false }
tokio-util = { version = "0.3", features = ["codec"] }
