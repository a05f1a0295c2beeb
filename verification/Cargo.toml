[package]
name = "iam_token_manager"
version = "0.1.0"
edition = "2021"
publish = false

[dependencies]
jsonwebtoken = "=7.2.0"
serde_json = "=1.0.154"
serde = { version = "=1.0.229", features = ["derive"] }
tokio = { version = "=1.54.1", features = ["macros", "rt-multi-thread", "signal", "time"] }
reqwest = { version = "=0.11.27", default-features = false, features = ["rustls-tls"] }
warp = { version = "=0.3.7", default-features = false }
futures = "=0.3.34"
tracing = "=0.1.44"
