[package]
name = "sshd-command"
version = "0.3.0"
edition = "2021"
publish = false

[dependencies]
hostname = "*"
semver = "1"
serde = { version = "1", features = ["derive"] }
serde_yaml = "0.9"
tera = { version = "1", default-features = false }
thiserror = "*"
uzers = "*"
