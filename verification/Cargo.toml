[package]
name = "piskvorky"
version = "0.1.0"
edition = "2021"
publish = false

[dependencies]
fancy-regex = "=0.20.0"
rand = "=0.8.8"
serde = { version = "=1.0.229", features = ["derive"] }
serde_json = "=1.0.154"
serde_repr = "=0.1.21"
bincode = "=1.3.3"
uuid = { version = "=1.29.0", features = ["serde"] }
time = { version = "=0.3.55", features = ["serde"] }
actix-web = "=4.18.1"
actix-session = { version = "=0.11.0", features = ["redis-session"] }
actix-cors = "=0.7.2"
sqlx = { version = "=0.8.6", default-features = false, features = ["runtime-tokio", "postgres", "uuid", "time"] }
futures = "=0.3.34"
log = "=0.4.35"
env_logger = "=0.11.11"
dotenv = "=0.15.0"
sha2 = "0.10"
