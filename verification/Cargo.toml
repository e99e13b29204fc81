[package]
name = "guildbot"
version = "0.1.0"
edition = "2021"
publish = false

[dependencies]
toml = "0.8"
serenity = "*"
tokio = { version = "*", features = ["rt-multi-thread", "macros"] }
