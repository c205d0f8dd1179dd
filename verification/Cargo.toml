[package]
name = "ctftool"
version = "0.1.0"
edition = "2021"
publish = false

[dependencies]
anyhow = "1"
clap = { version = "4", features = ["derive"] }
console = "0.15"
cookie = "0.18"
cookie_store = "0.21"
elf = "0.7"
env_logger = "0.11"
futures = "0.3"
hex = "0.4"
indicatif = "0.17"
log = "0.4"
regex = "1"
reqwest = { version = "0.12", default-features = false, features = ["json", "multipart", "rustls-tls"] }
rpassword = "7"
serde = { version = "1", features = ["derive"] }
serde_yaml = "0.9"
sha2 = "0.10"
time = "0.3"
tokio = { version = "1", features = ["fs", "io-util", "macros", "rt-multi-thread"] }
url = "2"
