[package]
name = "config_registry"
version = "0.1.0"
edition = "2021"
publish = false

[dependencies]
ulid = "1"
serde = { version = "1", features = ["derive"] }
actix-web = "4"
