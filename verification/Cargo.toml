[package]
name = "facebook_data_parser"
version = "0.1.0"
edition = "2021"
publish = false

[dependencies]
serde_json = "=1.0.151"
regex = "=1.13.1"
chrono = "=0.4.45"
clap = { version = "=4.6.7", features = ["derive"] }
dialoguer = { version = "=0.12.0", features = ["fuzzy-select"] }
glob = "=0.3.4"
rayon = "=1.12.0"

[dev-dependencies]
fs-err = "*"
