[package]
name = "lipid"
version = "0.1.0"
edition = "2021"
publish = false

[dependencies]
polars = { version = "=0.55.2", default-features = false, features = ["dtype-struct", "dtype-u8", "dtype-i8", "lazy", "serde"] }
ron = "=0.12.2"
serde = { version = "=1.0.229", features = ["derive"] }
