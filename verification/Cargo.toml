[package]
name = "exec-rs"
version = "0.1.0"
edition = "2021"
publish = false

[dependencies]
rust_decimal = "=1.41.0"
rust_decimal_macros = "1.40"
uuid = { version = "1", features = ["v5"] }
sha2 = "0.10"
hex = "0.4"
aes-gcm = "0.10"
hmac = "0.12"
chrono = { version = "0.4", features = ["serde"] }
serde = { version = "1", features = ["derive"] }
serde_json = "1"
anyhow = "1"
thiserror = "2"
clap = { version = "4", features = ["derive", "env"] }
tokio = { version = "1", features = ["full"] }
tokio-tungstenite = { version = "*", features = ["rustls-tls-webpki-roots"] }
futures-util = { version = "0.3", features = ["sink"] }
reqwest = { version = "0.12", default-features = false, features = ["json", "rustls-tls"] }
tracing = "0.1"
tracing-subscriber = { version = "0.3", features = ["json", "env-filter"] }
jsonschema = { version = "*", default-features = false }
duckdb = "1"
