[package]
name = "raft"
version = "0.1.0"
edition = "2021"
publish = false

[dependencies]
bytes = "=0.4.12"
futures = "=0.1.31"
futures-timer = "=0.1.1"
log = "=0.4.35"
prost = "=0.5.0"
rand = "=0.6.5"
tokio = "=0.1.22"
