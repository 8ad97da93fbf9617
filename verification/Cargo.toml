[package]
name = "ros2_client"
version = "0.1.0"
edition = "2021"
publish = false

[dependencies]
async-channel = "*"
futures = "*"
rand = "*"
rustdds = "*"
serde = { version = "*", features = ["derive"] }
