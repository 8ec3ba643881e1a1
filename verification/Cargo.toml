[package]
name = "ping-core"
version = "0.1.0"
edition = "2021"
publish = false

[dependencies]
pnet = "*"
thiserror = "*"
socket2 = { version = "*", features = ["all"] }
ctrlc = "*"
tokio = { version = "*", features = ["full"] }
