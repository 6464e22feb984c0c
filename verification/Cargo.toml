[package]
name = "dlmm_math"
version = "0.1.0"
edition = "2021"
publish = false

[dependencies]
rust_decimal = { version = "1", features = ["maths"] }
clap = { version = "4", features = ["derive"] }
anyhow = "1"
