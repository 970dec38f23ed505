[package]
name = "hotwire_turbo"
version = "0.1.0"
edition = "2021"
publish = false

[dependencies]
axum = "*"

[dev-dependencies]
html-escape = "*"
