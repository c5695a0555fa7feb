[package]
name = "zeptoclaw"
version = "0.1.0"
edition = "2021"
publish = false

[dependencies]
sha2 = "=0.10.9"
sha1 = "=0.10.7"
hex = "=0.4.3"
base64 = "=0.22.1"
chacha20poly1305 = "=0.10.1"
uuid = { version = "=1.29.0", features = ["v4"] }
bcrypt = "=0.17.1"
jsonwebtoken = "=9.3.1"
chrono = "=0.4.45"
dirs = "=6.0.0"
serde = { version = "=1.0.229", features = ["derive"] }
serde_json = "=1.0.154"
tracing = "=0.1.44"
tokio = { version = "=1.54.1", features = ["sync", "rt", "macros", "net", "io-util", "io-std", "time", "fs"] }
axum = { version = "0.7", features = ["ws"] }
tower-http = { version = "0.5", features = ["cors", "fs"] }
reqwest = { version = "0.12", default-features = false, features = ["json"] }
rumqttc = { version = "0.24", default-features = false }
tokio-serial = { version = "5.4", default-features = false }
futures = "0.3"
async-trait = "0.1"
once_cell = "1"
