[package]
name = "zonemail"
version = "0.1.0"
edition = "2021"
publish = false

[dependencies]
base64 = "0.22"
hickory-proto = { version = "0.24", default-features = false }
hickory-resolver = { version = "0.24", default-features = false, features = ["tokio-runtime", "system-config"] }
jiff = "0.2"
jsonwebtoken = { version = "10", default-features = false, features = ["use_pem", "rust_crypto"] }
lettre = { version = "0.11", default-features = false, features = ["builder", "smtp-transport", "tokio1", "hostname"] }
mail-parser = "0.11"
reqwest = { version = "0.12", default-features = false }
serde = { version = "1", features = ["derive"] }
serde_json = "1"
config = { version = "0.15", default-features = false, features = ["toml"] }
salvo = { version = "0.95", default-features = false, features = ["oapi", "affix-state", "server", "http1"] }
smtpd = "0.1"
thiserror = "2"
tokio = { version = "1", features = ["full"] }
tracing = "0.1"
tracing-subscriber = { version = "0.3", default-features = false, features = ["fmt"] }
toasty = "0.11"
toasty-core = "0.11"
