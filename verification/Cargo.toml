[package]
name = "summer_web"
version = "0.1.0"
edition = "2021"
publish = false

[dependencies]
axum = "=0.8.9"
axum-extra = { version = "=0.10.3", features = ["typed-header"] }
garde = "=0.23.0"
validator = "=0.21.0"
syn = { version = "=2.0.119", features = ["full", "extra-traits"] }
quote = "=1.0.47"
proc-macro2 = "=1.0.107"
schemars = "=1.2.3"
serde_json = "=1.0.154"
inventory = "=0.3.25"
socketioxide = "*"
