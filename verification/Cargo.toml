[package]
name = "watcher"
version = "0.1.0"
edition = "2021"
publish = false

[dependencies]
regex = "=1.13.1"
notify = "=8.2.0"
notify-debouncer-full = { version = "=0.7.0", features = ["crossbeam-channel"] }
crossbeam-channel = "=0.5.17"
env_logger = "=0.11.11"
