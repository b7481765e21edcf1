[package]
name = "coven_cli"
version = "0.1.0"
edition = "2021"
publish = false

[dependencies]
anyhow = "1"
base64 = "0.22"
cap-fs-ext = "3"
cap-std = "3"
chrono = "0.4"
dirs-next = "2"
fs2 = "0.4"
libc = "0.2"
rusqlite = { version = "0.32", features = ["bundled"] }
serde = { version = "1", features = ["derive"] }
serde_json = "1"
sha2 = "0.10"
sysinfo = "0.33"
toml = "0.8"
toml_edit = "0.22"
uuid = { version = "1", features = ["v4", "v5"] }
