[package]
name = "holdem"
version = "0.1.0"
edition = "2021"
publish = false

[dependencies]
uuid = { version = "=1.29.0", features = ["v4"] }
clap = { version = "=4.6.7", features = ["derive"] }
inquire = "=0.9.4"
rusoto_core = { version = "=0.47.0", default-features = false, features = ["rustls"] }
rusoto_dynamodb = { version = "=0.47.0", default-features = false, features = ["rustls"] }
serde = { version = "=1.0.229", features = ["derive"] }
serde_dynamodb = "=0.9.0"
tokio = { version = "=1.54.1", features = ["full"] }
tonic = "=0.12.3"
prost = "=0.13.5"
