[package]
name = "dataset_destroyer"
version = "0.1.0"
edition = "2021"
publish = false

[dependencies]
anyhow = "1"
clap = { version = "4", features = ["derive"] }
console = "0.15"
glob = "0.3"
image = { version = "0.24", features = ["webp-encoder"] }
imageproc = "0.23"
indicatif = "0.17"
num-traits = "0.2"
rand = "0.8"
rayon = "1"
resize = "0.8"
rgb = "0.8"
serde = { version = "1", features = ["derive"] }
serde_yaml = "0.9"
