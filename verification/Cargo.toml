[package]
name = "measured"
version = "0.1.0"
edition = "2021"
publish = false

[dependencies]
itoa = "=1.0.18"
memchr = "=2.8.3"
ryu = "=1.0.23"
bytes = "=1.12.1"
lasso = { version = "=0.7.3", features = ["multi-threaded"] }
indexmap = "=2.14.2"
libc = "=0.2.191"
procfs = "=0.18.0"
tokio = { version = "=1.54.1", features = ["rt", "rt-multi-thread"] }
