[package]
name = "icom_sim"
version = "0.1.0"
edition = "2021"
publish = false

[dependencies]
anyhow = "=1.0.104"
clap = { version = "=4.6.7", features = ["derive"] }
futures = "=0.3.34"
tokio = { version = "=1.53.2", features = ["rt-multi-thread", "macros", "net", "time", "io-util"] }
tokio-modbus = { version = "=0.17.0", features = ["tcp", "tcp-server"] }
tokio-serial = "=5.5.0"
