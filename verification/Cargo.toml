[package]
name = "word_game"
version = "0.1.0"
edition = "2021"
publish = false

[dependencies]
uuid = { version = "*", features = ["v4"] }
chrono = "*"
clap = { version = "*", features = ["derive", "env"] }
tokio = { version = "*", features = ["rt", "macros"] }
tokio-xmpp = "*"
xmpp-parsers = "*"
futures = "*"
async-trait = "*"
rpassword = "*"
