[package]
name = "wnfs_fuse"
version = "0.1.0"
edition = "2021"
publish = false

[dependencies]
ipfs-sqlite-block-store = "=0.11.5"
libipld = "=0.12.0"
anyhow = "*"
async-trait = "*"
chrono = "*"
clap = { version = "*", features = ["derive"] }
fuser = "*"
futures = "*"
libc = "*"
rand = "*"
tokio = { version = "*", features = ["macros", "rt-multi-thread", "io-util", "io-std"] }
tracing = "*"
tracing-subscriber = "*"
