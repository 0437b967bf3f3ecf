[package]
name = "date"
version = "0.1.0"
edition = "2021"
publish = false

[dependencies]
strptime = "*"
tzdb = "*"
diesel = { version = "2", default-features = false, features = ["postgres_backend"] }
serde = "1"
