[package]
name = "nertsal_bot"
version = "0.1.0"
edition = "2021"
publish = false

[dependencies]
rand = "=0.8.8"
serde = { version = "=1.0.229", features = ["derive"] }
serde_json = "=1.0.154"
tokio = { version = "=1.54.1", features = ["full"] }
twitch-irc = { version = "=5.0.1", default-features = false, features = ["transport-tcp", "transport-tcp-rustls-webpki-roots"] }
colored = "=2.2.0"
linefeed = "=0.6.0"
futures = "=0.3.34"
clap = { version = "=4.6.7", features = ["derive"] }
copy_dir = "=0.1.3"
google-sheets4 = "2"
yup-oauth2 = "5"
hyper = { version = "0.14", features = ["client", "http1", "http2", "tcp"] }
hyper-rustls = "0.22"
rocket = { version = "0.5", features = ["json"] }
