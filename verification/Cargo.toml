[package]
name = "tashbot"
version = "0.1.0"
edition = "2021"
publish = false

[dependencies]
tokio = { version = "1", features = ["sync", "rt-multi-thread", "macros", "signal"] }
irc = { version = "*", default-features = false }
irc-proto = "*"
futures-util = "0.3"
mysql_async = "*"
config = { version = "*", default-features = false, features = ["toml"] }
serde = { version = "1", features = ["derive"] }
thiserror = "1"
tracing = "0.1"
