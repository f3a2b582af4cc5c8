[package]
name = "plant_core"
version = "0.1.0"
edition = "2021"
publish = false

[dependencies]
uuid = { version = "*", features = ["v4"] }
serde = { version = "*", features = ["derive"] }
actix-web = "*"
diesel = { version = "*", features = ["sqlite", "r2d2"] }
dotenv = "*"
env_logger = "*"
log = "*"
