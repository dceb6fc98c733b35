[package]
name = "batt_protocol"
version = "0.1.0"
edition = "2021"
publish = false

[dependencies]
bno055 = "*"
macroquad = "*"
dotenv = "*"
eyre = "*"
linux-embedded-hal = "*"
postcard = { version = "1", features = ["alloc"] }
serde = { version = "1", features = ["derive"] }
tokio = { version = "1", features = ["rt-multi-thread", "net", "time"] }
tracing = "*"
tracing-subscriber = { version = "*", features = ["env-filter"] }
