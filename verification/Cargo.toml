[package]
name = "tds_codec"
version = "0.1.0"
edition = "2021"
publish = false

[dependencies]
uuid = "1"
encoding_rs = "0.8"
futures-util = { version = "0.3", features = ["io"] }
