[package]
name = "reservation"
version = "0.1.0"
edition = "2021"
publish = false

[dependencies]
chrono = "*"
thiserror = "*"
sqlx = { version = "*", default-features = false, features = ["postgres", "runtime-tokio", "chrono", "uuid"] }
