[package]
name = "watchman"
version = "0.1.0"
edition = "2021"
publish = false

[dependencies]
sysinfo = "*"
chrono = "*"
serde = { version = "1", features = ["derive"] }
serde_json = "1"
colored = "*"
dialoguer = "*"
structopt = "0.3"
directories = "*"
