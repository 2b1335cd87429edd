[package]
name = "pingmon"
version = "0.1.0"
edition = "2021"
publish = false

[dependencies]
actix-cors = "*"
actix-rt = "*"
actix-web = { version = "*", default-features = false, features = ["macros"] }
env_logger = "*"
log = "*"
redis = { version = "*", features = ["tokio-comp"] }
regex = "*"
reqwest = { version = "*", default-features = false, features = ["json"] }
serde = { version = "*", features = ["derive"] }
