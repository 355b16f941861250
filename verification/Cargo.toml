[package]
name = "sitepass"
version = "0.1.0"
edition = "2021"
publish = false

[dependencies]
argon2 = "0.5"
base64 = "0.22"
blake3 = "1"
clap = { version = "4", features = ["derive"] }
dialoguer = "0.11"
dirs = "5"
dotenv = "0.15"
