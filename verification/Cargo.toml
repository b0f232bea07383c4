[package]
name = "archive-core"
version = "0.1.0"
edition = "2021"
publish = false

[dependencies]
anyhow = "1"
encoding_rs = "0.8"
thiserror = "2"
serde = { version = "1", features = ["derive"] }
clap = { version = "4", features = ["derive"] }
zip = "2"
tar = "0.4"
flate2 = "1"
bzip2 = "*"
xz2 = "0.1"
zstd = "*"
sevenz-rust2 = "*"
unrar = "*"
