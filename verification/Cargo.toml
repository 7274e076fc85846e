[package]
name = "agentcoderepo"
version = "0.1.0"
edition = "2021"
publish = false

[dependencies]
anyhow = "1"
async-openai = { version = "0.33", default-features = false, features = ["chat-completion", "embedding", "rustls"] }
async-trait = "0.1"
axum = { version = "0.8", default-features = false, features = ["form", "http1", "json", "query", "tokio"] }
base64 = "0.22"
bytes = "1"
ed25519-dalek = "2"
hmac = "0.12"
http-body-util = "0.1"
rand = "0.8"
reqwest = { version = "0.12", default-features = false, features = ["json", "rustls-tls"] }
rust_decimal = "1"
serde = { version = "1", features = ["derive"] }
serde_json = "1"
sha2 = "0.10"
ssh-key = { version = "0.6", features = ["ed25519"] }
tokio = { version = "1", features = ["fs", "io-util", "macros", "net", "process", "rt-multi-thread", "sync", "time"] }
tokio-util = { version = "0.7", features = ["io"] }
tracing = "0.1"
tracing-subscriber = { version = "0.3", default-features = false, features = ["env-filter", "fmt", "registry"] }
turso = { version = "0.5", default-features = false, features = ["sync"] }
uuid = { version = "1", features = ["v4"] }
