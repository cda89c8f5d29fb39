[package]
name = "casecsv"
version = "0.1.0"
edition = "2021"
publish = false

[dependencies]
anyhow = "*"
arrayvec = "*"
clap = { version = "*", features = ["derive"] }
csv = "*"
power_flow_data = "*"
serde = { version = "*", features = ["derive"] }
serde_json = "*"
zip = "*"
