[package]
name = "pods_actions"
version = "0.1.0"
edition = "2021"
publish = false

[dependencies]
indexmap = "1"
futures = "0.3"
log = "0.4"
