[package]
name = "louds_rs"
version = "0.1.0"
edition = "2021"
publish = false

[dependencies]
fid-rs = "*"
serde = { version = "1", features = ["derive"] }
mem_dbg = "*"

[dev-dependencies]
rand = "0.8"
