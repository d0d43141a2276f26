[package]
name = "koyomi"
version = "0.1.0"
edition = "2021"
publish = false

[dependencies]
chrono = { version = "=0.4.45", features = ["serde"] }
uuid = { version = "=1.29.0", features = ["v4"] }
serde = { version = "=1.0.229", features = ["derive"] }
serde_yaml = "=0.9.34"
serde_json = "=1.0.154"
clap = { version = "=4.6.7", features = ["derive"] }
dirs = "=7.0.0"
tracing = "=0.1.44"
tracing-subscriber = { version = "=0.3.23", features = ["env-filter"] }
tokio = { version = "=1.54.1", features = ["rt-multi-thread", "time"] }
thiserror = "=2.0.21"
madori = "=0.1.27"
garasu = "=0.1.19"
awase = "=0.1.10"
shikumi = "=0.1.1084"
wgpu = "=25.0.2"
glyphon = "=0.9.0"
bytemuck = { version = "=1.25.2", features = ["derive"] }
