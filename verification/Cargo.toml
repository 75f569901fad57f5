[package]
name = "hot_curry"
version = "0.1.0"
edition = "2021"
publish = false

[dependencies]
anyhow = "=1.0.104"
clap = { version = "=4.6.7", features = ["derive"] }
headless_chrome = "0.9"
kuchiki = "=0.8.1"
pulldown-cmark = { version = "=0.9.6", default-features = false }
rayon = "=1.12.0"
reqwest = { version = "=0.11.27", default-features = false, features = ["rustls-tls"] }
serde = { version = "=1.0.229", features = ["derive"] }
serde_json = "=1.0.154"
serde_yaml = "0.9.34"
tera = "=1.20.1"
thiserror = "=1.0.69"
tokio = { version = "=1.54.1", features = ["macros", "rt-multi-thread"] }
toml = "=0.8.23"
tracing-subscriber = "=0.3.23"
url = { version = "=2.5.8", features = ["serde"] }
