[package]
name = "system_mqtt"
version = "0.1.0"
edition = "2021"
publish = false

[dependencies]
anyhow = "1"
argh = "0.1"
battery = "0.7"
keyring = "*"
lm-sensors = "*"
log = "0.4"
rpassword = "*"
rumqttc = { version = "*", features = ["url"] }
serde = { version = "1", features = ["derive"] }
serde_json = "1"
serde_yaml = "0.9"
simple_logger = "*"
sysinfo = "*"
systemd-journal-logger = "*"
tokio = { version = "1", features = ["full"] }
tokio-util = "0.7"
url = { version = "2", features = ["serde"] }
