[package]
name = "chess_net"
version = "0.1.0"
edition = "2021"
publish = false

[dependencies]
prost = { version = "0.11", default-features = false, features = ["std"] }
prost-build = "0.11"
