[package]
name = "sysmon"
version = "0.1.0"
edition = "2021"
publish = false

[dependencies]
anyhow = "1"
chrono = "0.4"
configparser = "3"
reqwest = { version = "0.12", features = ["blocking"] }
sysinfo = "*"
url = "2"
