[package]
name = "ccommon_rs"
version = "0.1.0"
edition = "2021"
publish = false

[dependencies]
time = "0.1"
thread-id = "*"
log = { version = "0.4", features = ["std"] }
crossbeam = "0.3"
thread_local = "*"
