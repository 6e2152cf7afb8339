[package]
name = "live_elo"
version = "0.1.0"
edition = "2021"
publish = false

[dependencies]
tokio = { version = "*", features = ["full"] }
tokio-util = "*"
axum = { version = "*", features = ["ws"] }
twitch-irc = "*"
