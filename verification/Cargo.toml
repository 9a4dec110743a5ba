[package]
name = "vinilcut"
version = "0.1.0"
edition = "2021"
publish = false

[dependencies]
axum = { version = "=0.7.9", features = ["multipart"] }
chrono = "=0.4.45"
grammers-client = "=0.11.0"
# Nothing names this one: it is here so that the session that grammers-client hands
# out can be kept in SQLite.
grammers-session = { version = "=0.11.0", features = ["sqlite-storage"] }
serde_json = "=1.0.154"
tokio = { version = "=1.54.1", features = ["full"] }
