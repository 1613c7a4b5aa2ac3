[package]
name = "warframe-api-helper"
version = "0.1.0"
edition = "2021"
publish = false

[dependencies]
aes = "0.8"
cbc = "0.1"
argon2 = "0.5"
generic-array = "0.14"
regex = "1"
serde_json = "1"
clap = { version = "4", features = ["derive"] }
reqwest = { version = "0.12", default-features = false, features = ["blocking", "rustls-tls"] }
procfs = "0.16"
walkdir = "2"
atty = "0.2"
anyhow = "1"
winapi = { version = "0.3", features = ["memoryapi", "processthreadsapi", "winnt", "handleapi"] }
