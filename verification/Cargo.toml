[package]
name = "ddns_server"
version = "0.1.0"
edition = "2021"
publish = false

[dependencies]
base64 = "0.22"
rand = "0.8"
actix-web = { version = "4", default-features = false, features = ["macros", "cookies"] }
actix-session = { version = "0.10", features = ["cookie-session"] }
actix-files = "0.6"
tera = { version = "1", default-features = false }
tokio = { version = "1", features = ["rt-multi-thread", "macros", "net"] }
sqlx = { version = "0.8", default-features = false, features = ["runtime-tokio", "sqlite", "derive"] }
hickory-proto = "0.24"
hickory-server = { version = "0.24", default-features = false }
serde = { version = "1", features = ["derive"] }
chrono = { version = "0.4", default-features = false, features = ["clock"] }
dotenv = "0.15"
env_logger = { version = "0.11", default-features = false }
log = "0.4"
async-trait = "0.1"
