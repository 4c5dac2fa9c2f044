[package]
name = "unix-socket-switcher"
version = "0.1.0"
edition = "2021"
publish = false

[dependencies]
anyhow = "1"
clap = { version = "4", features = ["derive"] }
daemonize = "0.5"
env_logger = "0.11"
glob = "0.3"
libc = "0.2"
listenfd = "1"
log = "0.4"
tokio = { version = "1", features = ["io-util", "macros", "net", "rt-multi-thread", "signal", "sync", "time"] }
