[package]
name = "allo_core"
version = "0.1.0"
edition = "2021"
publish = false

[dependencies]
jsonwebtoken = { version = "=11.1.0", features = ["rust_crypto"] }
uuid = { version = "=1.27.0", features = ["v4"] }
chrono = "=0.4.45"
bcrypt = "=0.19.3"
serde_json = "=1.0.151"
