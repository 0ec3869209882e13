[package]
name = "sandboxd"
version = "0.1.0"
edition = "2021"
publish = false

[dependencies]
base64 = "0.22"
flate2 = "1"
hex = "0.4"
libc = "0.2"
nix = { version = "0.30", features = ["dir", "fs", "mount", "user", "process", "signal"] }
rustls = { version = "0.23", default-features = false, features = ["ring", "std", "tls12"] }
serde = { version = "1", features = ["derive"] }
serde_json = "1"
serde_yaml = "0.9"
sha2 = "0.10"
tar = "0.4"
tempfile = "3"
thiserror = "2"
tokio = { version = "1", features = ["rt", "rt-multi-thread", "sync", "time", "macros"] }
tokio-postgres = "0.7"
tokio-postgres-rustls = "0.13"
xattr = "1"
zeroize = "1"
zstd = "0.13"
