[package]
name = "blabbergraph"
version = "0.1.0"
edition = "2021"
publish = false

[dependencies]
anyhow = "1"
dirs = "5"
env_logger = "0.11"
gio = "0.20"
glib = "0.20"
gtk4 = "0.9"
ksni = "0.2"
libadwaita = { version = "0.7", features = ["v1_4"] }
log = "0.4"
pipewire = "0.8"
serde = { version = "1", features = ["derive"] }
serde_json = "1"
