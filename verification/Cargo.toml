[package]
name = "warthog"
version = "0.1.0"
edition = "2021"
publish = false

[dependencies]
wow_srp = "*"
wow_login_messages = { version = "*", features = ["tokio"] }
md5 = "*"
tokio = { version = "1", features = ["full"] }
tracing = "0.1"
anyhow = "1"
clap = { version = "4", features = ["derive"] }
