[package]
name = "rss_pipe"
version = "0.1.0"
edition = "2021"
publish = false

[dependencies]
bytes = "*"
feed-rs = "*"
http = "*"
http-body-util = "*"
hyper = { version = "*", features = ["full"] }
hyper-socks2 = "*"
hyper-tls = "*"
hyper-util = { version = "*", features = ["full"] }
nanohtml2text = "*"
regex = "*"
serde = { version = "*", features = ["derive"] }
serde_json = "*"
tokio = { version = "*", features = ["full"] }
