[package]
name = "kspacker"
version = "0.1.0"
edition = "2021"
publish = false

[dependencies]
blake3 = { version = "1", features = ["pure"] }
chrono = { version = "0.4", default-features = false, features = ["std", "clock", "serde"] }
dirs = "4"
serde = { version = "1", features = ["derive"] }
serde_json = "1"
zip = { version = "0.6", default-features = false, features = ["zstd"] }
