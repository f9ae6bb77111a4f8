[package]
name = "fw"
version = "2.19.0"
edition = "2021"
publish = false

[dependencies]
clap = { version = "4", features = ["cargo"] }
crossbeam = "0.8"
dirs = "*"
git2 = "0.19"
indicatif = "0.17"
openssl-probe = "0.1"
rand = "0.9"
rayon = "1"
regex = "1"
reqwest = { version = "0.12", features = ["blocking", "json"] }
serde = { version = "1", features = ["derive"] }
serde_json = "1"
toml = "0.8"
walkdir = "2"
yansi = "1"
