[package]
name = "lain"
version = "0.1.0"
edition = "2021"
publish = false

[dependencies]
rand = "0.9"
proc-macro2 = "1"
quote = "1"
serde = { version = "1", features = ["derive"] }
