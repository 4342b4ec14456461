[package]
name = "gskkserv"
version = "0.1.0"
edition = "2021"
publish = false

[dependencies]
encoding = "0.2"
rustc-serialize = "0.3"
reqwest = { version = "0.12", default-features = false, features = ["blocking"] }
docopt = "1"
daemonize = "0.5"
env_logger = "0.11"
log = "0.4"
thiserror = "1"
