[package]
name = "xcp-metrics-plugins"
version = "0.1.0"
edition = "2021"
publish = false

[dependencies]
uuid = { version = "=1.29.0", features = ["v4"] }
xenstore-rs = { version = "=0.8.0", features = ["async-tokio"] }
xenctrl = "=0.9.0"
xenctrl-sys = "=0.2.0"
radix_trie = "=0.3.0"
smol_str = "=0.3.7"
compact_str = "=0.10.0"
smallvec = "=1.16.4"
dashmap = "=6.2.1"
anyhow = "=1.0.104"
tracing = "=0.1.44"
tracing-subscriber = "=0.3.23"
tokio = { version = "=1.54.1", features = ["full"] }
clap = { version = "=4.6.7", features = ["derive"] }
argh = "=0.1.19"
nix = { version = "=0.31.3", features = ["mman", "ioctl"] }
bitflags = "=2.13.2"
futures = "=0.3.34"
async-stream = "=0.3.6"
enum_dispatch = "=0.3.13"
maplit = "=1.0.2"
serde_json = "=1.0.154"
fastrand = "=2.5.0"
smol = "=2.0.2"
