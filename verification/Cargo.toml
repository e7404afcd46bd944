[package]
name = "form"
version = "0.1.0"
edition = "2021"
publish = false

[dependencies]
sqlx = { version = "0.7", default-features = false, features = ["mysql", "any", "runtime-tokio"] }
