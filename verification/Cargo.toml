[package]
name = "event_listener"
version = "0.1.0"
edition = "2021"
publish = false

[dev-dependencies]
waker-fn = "1"
