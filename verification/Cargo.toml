[package]
name = "proxy_tool"
version = "0.1.0"
edition = "2021"
publish = false

[dependencies]
aes-gcm = "=0.10.3"
chrono = "=0.4.45"
getrandom = "=0.3.4"
memory-stats = "=1.2.0"
russh = "=0.62.7"
ssh-key = "=0.7.0-rc.11"
serde = { version = "1", features = ["derive"] }
serde_json = "1"
thiserror = "2"
tokio = { version = "=1.54.1", features = ["full"] }
uuid = { version = "=1.29.0", features = ["v4"] }
