[package]
name = "data_handler"
version = "0.1.0"
edition = "2021"
publish = false

[dependencies]
log = "0.4"
pretty_env_logger = "*"
serde = { version = "1", features = ["derive"] }
serde_json = "1"
serialport = { version = "*", default-features = false }
spmc = "*"
spmc_buffer = "*"
stoppable_thread = "*"
tokio = { version = "1", features = ["rt"] }
tokio-postgres = "0.7"
tungstenite = "*"
