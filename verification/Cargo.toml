[package]
name = "coding_quiz_api"
version = "0.1.0"
edition = "2021"
publish = false

[dependencies]
tsid = "*"
argon2 = "0.5"
sha2 = "0.10"
rand = "0.8"
chrono = "0.4"
jsonwebtoken = { version = "10", default-features = false, features = ["rust_crypto"] }
serde = { version = "1", features = ["derive"] }
serde_json = "1"
sqlx = { version = "0.8", default-features = false, features = ["postgres", "runtime-tokio"] }
actix-web = { version = "4", default-features = false, features = ["macros"] }
log = "0.4"
env_logger = "0.11"
