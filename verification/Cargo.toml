[package]
name = "notes_core"
version = "0.1.0"
edition = "2021"
publish = false

[dependencies]
sha2 = "=0.11.0"
rand = "=0.10.3"
argon2 = "=0.6.0"
password-hash = "=0.6.1"
serde_json = "=1.0.151"
infer = "=0.22.0"
sanitize-filename = "=0.6.0"
chrono = "=0.4.45"
async-openai = { version = "=0.42.1", features = ["chat-completion"] }
tokio = { version = "=1.53.2", features = ["rt-multi-thread", "macros"] }
validator = "=0.21.0"
