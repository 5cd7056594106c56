[package]
name = "repomirror"
version = "0.1.0"
edition = "2021"
publish = false

[dependencies]
md5 = "*"
sha1 = "*"
sha2 = "*"
bzip2-rs = "*"
gzip = "*"
lzma-rs = "*"
anyhow = "*"
clap = { version = "*", features = ["derive"] }
tokio = { version = "*", features = ["full"] }
reqwest = { version = "*", default-features = false }
url = "*"
log = "*"
flexi_logger = "*"
rand = "*"
num_cpus = "*"
walkdir = "*"
zip = { version = "*", default-features = false, features = ["zstd"] }
debcontrol = "*"
