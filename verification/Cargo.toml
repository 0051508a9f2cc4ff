[package]
name = "answeredthis"
version = "0.1.0"
edition = "2021"
publish = false

[dependencies]
pulldown-cmark = { version = "*", default-features = false, features = ["html"] }
htmlescape = "*"
syntect = { version = "*", default-features = false, features = ["default-fancy"] }
chrono = "*"
serde = { version = "1", features = ["derive"] }
serde_json = "1"
rocket = { version = "0.5", features = ["secrets"] }
diesel = { version = "2", features = ["sqlite"] }
dotenv = "*"
mustache = "*"
hyper = { version = "0.14", features = ["client", "http1", "tcp"] }
hyper-tls = "0.5"
tokio = { version = "1", features = ["rt"] }
