[package]
name = "anytype_friend"
version = "0.1.0"
edition = "2021"
publish = false

[dependencies]
chrono = "*"
cid = "*"
dirs = "*"
futures-util = "*"
prost-types = "*"
tokio = { version = "*", features = ["sync", "rt"] }
tonic = "*"
