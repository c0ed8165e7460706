[package]
name = "sonata"
version = "0.1.0"
edition = "2021"
publish = false

[dependencies]
anyhow = "1"
bzip2 = "0.4"
colored = "2"
console = "0.15"
flate2 = "1"
futures-util = "0.3"
git2 = { version = "0.19", default-features = false }
indexmap = "2"
log = "0.4"
md-5 = "0.10"
once_cell = "1"
regex = "1"
reqwest = { version = "0.12", default-features = false, features = ["rustls-tls", "gzip", "stream", "json"] }
serde = { version = "1", features = ["derive"] }
serde_json = { version = "1", features = ["preserve_order"] }
sha2 = "0.10"
tar = "0.4"
tempfile = "3"
tokio = { version = "1", features = ["full"] }
url = "2"
wait-timeout = "0.2"
walkdir = "2"
xz2 = "0.1"
zip = { version = "2", default-features = false, features = ["deflate"] }
