[package]
name = "db-dump"
version = "0.5.1"
edition = "2021"
publish = false

[dependencies]
anyhow = "1"
chrono = { version = "0.4", default-features = false, features = ["std"] }
clap = { version = "4", features = ["derive"] }
csv = "1"
flate2 = "1"
fnv = "1"
glob = "0.3"
indicatif = "0.17"
memmap = "0.7"
semver = "1"
serde = { version = "1", features = ["derive"] }
serde_derive = "1"
serde_json = "1"
tar = "0.4"
