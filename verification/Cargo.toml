[package]
name = "agent-approval-interchange"
version = "0.1.0"
edition = "2021"
publish = false

[dependencies]
chrono = "=0.4.45"
regex = "1"
serde = { version = "=1.0.229", features = ["derive"] }
serde_jcs = "=0.1.0"
serde_json = "=1.0.154"
sha2 = "=0.10.9"
thiserror = "=2.0.21"
uuid = { version = "=1.29.0", features = ["v4"] }
