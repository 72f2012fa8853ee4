[package]
name = "veloq-nsys-data"
version = "0.1.0"
edition = "2021"
publish = false

[dependencies]
arrow = { version = "=60.1.0", default-features = false }
bytes = "=1.12.1"
parquet = { version = "=60.1.0", default-features = false, features = ["arrow", "snap"] }
duckdb = { version = "=1.20000.1", default-features = false }
serde = { version = "=1.0.229", features = ["derive"] }
serde_json = "=1.0.154"
schemars = { version = "=1.2.3", features = ["derive"] }
thiserror = "=2.0.21"
log = "=0.4.35"
rayon = "=1.12.0"
