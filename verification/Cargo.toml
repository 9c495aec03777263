[package]
name = "ncomm"
version = "0.1.0"
edition = "2021"
publish = false

[dependencies]
crossbeam = "0.8"
quanta = "0.12"
threadpool = "1.8"
embedded-io = "0.6"
rerun = { version = "0.18", default-features = false, features = ["sdk"] }
