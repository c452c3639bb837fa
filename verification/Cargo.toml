[package]
name = "hbackup"
version = "0.1.0"
edition = "2021"
publish = false

[dependencies]
anyhow = "*"
bzip2 = "*"
clap = { version = "*", features = ["derive"] }
dirs = "*"
flate2 = "*"
futures = "*"
lz4 = "*"
serde = { version = "*", features = ["derive"] }
serde_json = "*"
sevenz-rust2 = "*"
tar = "*"
tokio = { version = "*", features = ["rt-multi-thread", "fs"] }
toml = "*"
walkdir = "*"
xz2 = { version = "*", features = ["static"] }
zip = "*"
zstd = "*"
