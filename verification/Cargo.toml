[package]
name = "tower_cli"
version = "0.1.0"
edition = "2021"
publish = false

[dependencies]
anyhow = "=1.0.104"
chrono = "=0.4.45"
clap = { version = "=4.6.7", features = ["derive", "env"] }
getrandom = "=0.3.4"
indicatif = "=0.18.6"
libc = "=0.2.191"
postcard = { version = "=1.1.3", features = ["use-std"] }
ratatui = "=0.30.2"
rumqttc = { version = "=0.25.1", default-features = false }
rumqttd = { version = "=0.20.0", default-features = false }
rustyline = "=17.0.2"
serde = { version = "=1.0.229", features = ["derive"] }
serde_json = "=1.0.154"
serialport = { version = "=4.10.1", default-features = false }
uuid = { version = "=1.29.0", features = ["v4"] }
