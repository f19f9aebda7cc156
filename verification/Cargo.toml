[package]
name = "nebula_ssh"
version = "0.1.0"
edition = "2021"
publish = false

[dependencies]
argon2 = "0.5"
chrono = { version = "0.4", default-features = false, features = ["std", "clock"] }
dirs = "6"
futures-util = { version = "0.3", default-features = false, features = ["std"] }
hex = "0.4"
log = "0.4"
portable-pty = "0.8"
rand = "0.8"
reqwest = { version = "0.12", default-features = false, features = ["json", "stream"] }
rusqlite = { version = "0.32", features = ["bundled-sqlcipher"] }
serde = { version = "1", features = ["derive"] }
serde_json = "1"
sha2 = "0.10"
ssh2 = "0.9"
sysinfo = { version = "0.32", default-features = false, features = ["system", "disk"] }
