[package]
name = "o324_daemon"
version = "0.1.0"
edition = "2021"
publish = false

[dependencies]
rand = "=0.9.5"
shellexpand = "=3.1.2"
serde = { version = "=1.0.229", features = ["derive"] }
serde_json = "=1.0.154"
toml = "=0.8.23"
eyre = "=0.6.14"
color-eyre = "=0.6.5"
tokio = { version = "=1.54.1", features = ["full"] }
native_db = "=0.8.2"
native_model = "=0.4.20"
clap = { version = "=4.6.7", features = ["derive"] }
chrono = "=0.4.45"
colored = "=2.2.0"
comfy-table = "=7.2.2"
zbus = "=5.19.0"
zvariant = "=5.15.1"
tracing = "=0.1.44"
nix = { version = "=0.29.0", features = ["user"] }
x11rb = "=0.13.2"
shared_memory = "=0.12.4"
raw_sync = "=0.1.5"
bincode = "=2.0.1"
directories-next = "=2.0.0"
futures-util = "=0.3.34"
once_cell = "=1.21.4"
dashmap = "6"
