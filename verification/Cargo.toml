[package]
name = "diesel_geography"
version = "0.1.0"
edition = "2021"
publish = false

[dependencies]
postgis = "*"
diesel = { version = "1.4", features = ["postgres"] }
serde = { version = "1", features = ["derive"] }
