[package]
name = "explorer_datatypes"
version = "0.1.0"
edition = "2021"
publish = false

[dependencies]
bytemuck = "=1.25.2"
polars = { version = "=0.55.2", default-features = false, features = ["dtype-date", "dtype-datetime"] }
rustler = "=0.38.0"
