[package]
name = "llvm_sys_query"
version = "0.1.0"
edition = "2021"
publish = false

[dependencies]
semver = "1"
sha2 = "0.10"
thiserror = "2"
color-eyre = { version = "0.6", default-features = false }
crates-index = { version = "3", default-features = false, features = ["git"] }
crossterm = "0.28"
ratatui = { version = "0.29", default-features = false, features = ["crossterm"] }
flate2 = "1"
tar = "0.4"
reqwest = { version = "0.12", default-features = false, features = ["blocking", "rustls-tls"] }
rustdoc-json = "*"
rustdoc-types = "*"
serde_json = "1"
uranus = "*"
