[package]
name = "steamos_manager"
version = "0.1.0"
edition = "2021"
publish = false

[dependencies]
anyhow = "1"
clap = { version = "4", features = ["derive"] }
config = { version = "=0.15.27", default-features = false, features = ["async", "ini"] }
gio = "0.20"
input-linux = "=0.7.1"
itertools = "=0.14.0"
linux-cec = "=0.2.1"
nix = { version = "=0.30.1", features = ["fs", "signal", "time", "user"] }
regex = "=1.13.1"
serde = { version = "1", features = ["derive"] }
serde_json = "=1.0.154"
speech-dispatcher = "0.16"
sysinfo = "=0.40.1"
tempfile = "3"
tokio = { version = "1", features = ["full"] }
tokio-stream = "0.1"
tokio-util = "0.7"
toml = "=1.1.8"
tracing = "0.1"
tracing-subscriber = { version = "0.3", features = ["env-filter"] }
udev = "*"
xdg = "=3.0.0"
zbus = { version = "=5.19.0", default-features = false, features = ["tokio"] }
zbus_xml = "=5.2.1"
