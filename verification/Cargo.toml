[package]
name = "keycase"
version = "0.1.0"
edition = "2021"
publish = false

[dependencies]
convert_case = "=0.12.0"
dashmap = "=6.2.1"
rayon = "=1.12.0"
num_cpus = "=1.17.0"
serde_json = { version = "=1.0.151", features = ["preserve_order"] }
once_cell = "=1.21.4"
