[package]
name = "k1f_bot"
version = "0.1.0"
edition = "2021"
publish = false

[dependencies]
argon2 = "=0.5.3"
chacha20poly1305 = "=0.10.1"
rand = "=0.9.5"
rusqlite = { version = "=0.41.1", features = ["bundled"] }
pulldown-cmark = "=0.13.6"
uuid = { version = "=1.29.0", features = ["v4"] }
url = "=2.5.8"
lazy-regex = "=3.6.2"
zeroize = "=1.9.1"
thiserror = "=2.0.21"
anyhow = "=1.0.104"
log = "=0.4.35"
pretty_env_logger = "=0.5.0"
pinger = "=2.2.0"
serde = { version = "=1.0.229", features = ["derive"] }
serde_json = "=1.0.154"
tokio = { version = "=1.54.1", features = ["rt-multi-thread", "macros"] }
reqwest = { version = "=0.12.28", default-features = false, features = ["json", "rustls-tls"] }
teloxide = { version = "=0.17.0", default-features = false, features = ["macros", "ctrlc_handler", "rustls"] }
takecell = "=0.1.1"
