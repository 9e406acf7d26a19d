[package]
name = "loqui"
version = "0.1.0"
edition = "2021"
publish = false

[dependencies]
failure = "0.1"
futures = "0.1"
tokio = { version = "0.1", default-features = false, features = ["codec", "io", "reactor", "rt-full", "tcp", "timer"] }
tokio-codec = "0.1"
