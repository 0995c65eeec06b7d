[package]
name = "rsground"
version = "0.1.0"
edition = "2021"
publish = false

[dependencies]
operational-transform = { version = "=0.6.1", features = ["serde"] }
bytecount = "=0.6.9"
uuid = { version = "=1.29.0", features = ["v4"] }
argon2 = { version = "=0.5.3", features = ["std"] }
chrono = "=0.4.45"
serde = { version = "=1.0.229", features = ["derive"] }
serde_json = { version = "=1.0.154", features = ["preserve_order"] }
jsonwebtoken = "=9.3.1"
actix = "=0.13.5"
actix-web = "=4.18.1"
actix-ws = "=0.3.1"
tokio = { version = "=1.54.1", features = ["full"] }
futures = "=0.3.34"
log = "=0.4.35"
env_logger = "=0.11.11"
dotenvy = "=0.15.7"
thiserror = "=2.0.21"
oauth2 = "=4.4.2"
reqwest = { version = "=0.11.27", default-features = false, features = ["json", "rustls-tls"] }
hakoniwa = { version = "=1.8.0", features = ["landlock"] }
nix = { version = "=0.29.0", features = ["process", "signal"] }
os_pipe = "=1.2.3"
async-io = "=2.6.0"
