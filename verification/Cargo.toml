[package]
name = "storage"
version = "0.1.0"
edition = "2021"
publish = false

[dependencies]
md-5 = "=0.10.6"
rocket = "=0.5.2"
rocket_cors = "=0.6.0"
apalis = { version = "=0.5.5", features = ["redis"] }
tokio = { version = "=1.54.1", features = ["macros", "rt-multi-thread"] }
tokio-util = { version = "=0.7.20", features = ["compat"] }
futures = "=0.3.34"
serde = { version = "=1.0.229", features = ["derive"] }
derive_more = "=0.99.20"

[dev-dependencies]
bson = "2"
