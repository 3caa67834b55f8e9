[package]
name = "nanohat_feed"
version = "0.1.0"
edition = "2021"
publish = false

[dependencies]
image = "0.23"
imageproc = "0.22"
rusttype = "0.9"
i2cdev = "0.5"
gpio-cdev = { version = "0.5", features = ["async-tokio"] }
futures = "0.3"
tokio = { version = "1", features = ["macros", "rt-multi-thread"] }
reqwest = "0.11"
serde = { version = "1", features = ["derive"] }
serde-xml-rs = "0.5"
