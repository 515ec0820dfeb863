[package]
name = "shvapp"
version = "0.1.0"
edition = "2021"
publish = false

[dependencies]
sha1 = "=0.10.7"
async-std = { version = "*", features = ["unstable"] }
async-broadcast = "*"
log = "*"
fern = { version = "*", features = ["colored"] }
colored = "2"
chrono = "*"
structopt = "*"
