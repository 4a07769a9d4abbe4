[package]
name = "blockstm_logging"
version = "0.1.0"
edition = "2021"
publish = false

[dependencies]
serde = { version = "1", features = ["derive"] }
serde_json = "1"
sha2 = "0.10"
rand = "0.7"
clap = { version = "4", features = ["derive"] }
num_cpus = "1"
