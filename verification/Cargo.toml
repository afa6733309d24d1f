[package]
name = "arnis"
version = "0.1.0"
edition = "2021"
publish = false

[dependencies]
colored = "3"
fastnbt = "2"
rand = "0.9"
rand_chacha = "0.9"
serde = { version = "1", features = ["derive"] }
serde_json = "1"
