[package]
name = "keygen"
version = "0.1.0"
edition = "2021"
publish = false

[dependencies]
sequoia-openpgp = { version = "1", default-features = false, features = ["crypto-openssl", "allow-experimental-crypto", "allow-variable-time-crypto"] }
anyhow = "1"
atty = "0.2"
termion = "*"
