[package]
name = "cross_control"
version = "0.1.0"
edition = "2021"
publish = false

[dependencies]
uuid = { version = "1", features = ["v4"] }
tokio = { version = "1", features = ["full"] }
quinn = "0.11"
rustls = { version = "0.23", features = ["ring"] }
rustls-pemfile = "2"
rcgen = "0.13"
ring = "0.17"
hostname = "0.4"
dirs = "6"
toml = "0.8"
serde = { version = "1", features = ["derive"] }
