[package]
name = "mail_pinger"
version = "0.1.0"
edition = "2021"
publish = false

[dependencies]
clap = "2"
env_logger = "*"
exitcode = "1"
failure = "0.1"
imap = "2"
libc = "0.2"
log = "0.4"
native-tls = "0.2"
serde = { version = "1", features = ["derive"] }
serde_derive = "1"
serde_yaml = "0.8"
threadpool = "1"
