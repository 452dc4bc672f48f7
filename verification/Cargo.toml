[package]
name = "lpm"
version = "0.1.0"
edition = "2021"
publish = false

[dependencies]
aes = "0.8"
aes-gcm = "0.10"
bincode = "1.3"
cli-clipboard = "0.4"
copypasta-ext = "0.4"
crossterm = "0.26"
ctrlc = "3"
rand = "0.8"
rpassword = "7"
rsa = "0.9"
serde = { version = "1", features = ["derive"] }
serde_derive = "1"
sha2 = "0.10"
tabled = "0.12"
tokio = { version = "1", features = ["full"] }
toml = "0.7"
zeroize = "1"
