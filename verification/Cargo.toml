[package]
name = "whitelist_sync"
version = "0.1.0"
edition = "2021"
publish = false

[dependencies]
env_logger = "0.7"
futures-util = "0.3"
htmlescape = "0.3"
hyper = "0.13"
log = "0.4"
percent-encoding = "2"
regex = "1"
tokio = { version = "0.2", features = ["macros", "rt-threaded", "time"] }
trust-dns-resolver = "0.19"
