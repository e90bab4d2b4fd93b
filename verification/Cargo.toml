[package]
name = "nyat64"
version = "0.1.0"
edition = "2021"
publish = false

[dependencies]
afpacket = "*"
anyhow = "*"
async-io = "*"
async-std = { version = "*", features = ["attributes"] }
env_logger = "*"
futures-lite = "*"
getopts = "*"
libc = "*"
log = "*"
serde = { version = "*", features = ["derive"] }
serde_json = "*"

[dev-dependencies]
pnet = "*"
