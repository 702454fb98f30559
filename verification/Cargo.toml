[package]
name = "yengine"
version = "0.1.0"
edition = "2021"
publish = false

[dependencies]
fastrand = "2"
futures = "0.3"
thiserror = "2"
tracing = "0.1"
