[package]
name = "microservice"
version = "0.1.0"
edition = "2021"
publish = false

[dependencies]
url = "*"
hyper = { version = "*", features = ["server", "http1"] }
hyper-util = { version = "*", features = ["tokio"] }
http-body-util = "*"
tokio = { version = "*", features = ["rt", "net", "macros"] }
diesel = { version = "*", features = ["postgres"] }
log = "*"
env_logger = "*"
