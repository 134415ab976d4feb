[package]
name = "gcloud-ctx"
version = "0.4.0"
edition = "2021"
publish = false

[dependencies]
anyhow = "=1.0.104"
clap = { version = "=3.2.25", features = ["derive", "cargo"] }
colored = "=2.2.0"
dialoguer = "=0.10.4"
dirs = "=4.0.0"
regex = "=1.13.1"
serde_ini = "=0.2.0"
thiserror = "=1.0.69"

[dev-dependencies]
serde = "=1.0.229"
