[package]
name = "serial_bridge"
version = "0.1.0"
edition = "2021"
publish = false

[dependencies]
serde_json = { version = "=1.0.151", features = ["preserve_order"] }
clap = { version = "=4.6.7", features = ["derive"] }
rumqttc = "=0.25.1"
tokio = { version = "=1.53.2", features = ["rt", "macros", "sync", "time"] }
tokio-serial = { version = "=5.5.0", default-features = false }
serialport = { version = "=4.10.1", default-features = false }
