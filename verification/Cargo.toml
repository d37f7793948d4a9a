[package]
name = "appdock"
version = "0.1.0"
edition = "2021"
publish = false

[dependencies]
serde_json = "1"
objc2 = "0.6"
objc2-foundation = "0.3"
objc2-core-foundation = "0.3"
objc2-core-graphics = "0.3"
