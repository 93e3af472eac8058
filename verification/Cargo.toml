[package]
name = "decimal"
version = "0.1.0"
edition = "2021"
publish = false

[dependencies]
dec = "*"
serde = { version = "1", features = ["derive"] }
ord_subset = "3"
rustc-serialize = "0.3"

[dev-dependencies]
serde_json = "1"
