[package]
name = "secret-order-book"
version = "0.1.0"
edition = "2021"
publish = false

[dependencies]
secret-toolkit = "=0.2.0"
secret-cosmwasm-std = "=0.10.1"
secret-cosmwasm-storage = "=0.10.0"
serde = { version = "=1.0.229", default-features = false, features = ["derive"] }
