[package]
name = "change-capsule"
version = "0.3.0"
edition = "2021"
publish = false

[dependencies]
sha2 = "0.10"
hex = "0.4"
ed25519-dalek = "2"
getrandom = "0.3"
ulid = "*"
zeroize = { version = "1", features = ["derive"] }
serde = { version = "1", features = ["derive"] }
serde_json = "1"
clap = { version = "4", features = ["derive"] }
fs2 = "0.4"
rustix = { version = "1", features = ["fs"] }
tempfile = "3"
thiserror = "2"
