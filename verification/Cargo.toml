[package]
name = "trid_scan"
version = "0.1.0"
edition = "2021"
publish = false

[dependencies]
anyhow = "*"
clap = { version = "*", features = ["cargo"] }
colored = "*"
csv = "*"
indicatif = "*"
parse-size = "*"
rayon = "*"
regex = "*"
serde_json = "*"
walkdir = "*"
