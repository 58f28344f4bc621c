[package]
name = "wikiauthbot"
version = "0.1.0"
edition = "2021"
publish = false

[dependencies]
color-eyre = "0.6"
dashmap = "5"
mwapi = "*"
poise = "0.6"
serenity = "0.12"
tokio = { version = "1", features = ["rt-multi-thread", "signal", "sync", "time"] }
tracing-subscriber = { version = "0.3", features = ["env-filter"] }
