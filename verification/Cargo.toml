[package]
name = "file_cloud"
version = "0.1.0"
edition = "2021"
publish = false

[dependencies]
chrono = "=0.4.45"
uuid = { version = "=1.29.0", features = ["v4"] }
md-5 = "=0.10.6"
hex = "=0.4.3"
rand = "=0.9.5"
moka = { version = "=0.12.16", features = ["future"] }
actix-web = { version = "=4.18.1", default-features = false, features = ["macros"] }
actix-multipart = { version = "=0.7.2", default-features = false }
sqlx = { version = "=0.8.6", default-features = false, features = ["mysql", "runtime-tokio", "json", "rust_decimal", "chrono"] }
rust_decimal = "=1.43.0"
tokio = { version = "=1.54.1", features = ["fs", "io-util", "rt-multi-thread", "macros"] }
futures-util = "=0.3.34"
serde = { version = "=1.0.229", features = ["derive"] }
serde_json = "=1.0.154"
zip = { version = "=2.6.1", default-features = false, features = ["deflate"] }
walkdir = "=2.5.0"
tempfile = "=3.27.0"
log = "=0.4.34"
env_logger = "=0.11.11"
config = { version = "=0.15.27", default-features = false, features = ["toml"] }
