[package]
name = "resources"
version = "0.1.0"
edition = "2021"
publish = false

[dependencies]
anyhow = "1"
expanduser = "*"
hashbrown = "0.14"
log = "0.4"
nparse = "*"
once_cell = "1"
regex = "1"
rust-ini = "*"
serde_json = "1"
uzers = "*"
