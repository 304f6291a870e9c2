[package]
name = "mcp_servers"
version = "0.1.0"
edition = "2021"
publish = false

[dependencies]
urlencoding = "*"
serde = { version = "*", features = ["derive"] }
serde_json = "*"
schemars = "*"
rmcp = "*"
tokio = { version = "*", features = ["sync", "macros", "rt"] }
tracing = "*"
http = "*"
bytes = "*"
http-body = "*"
http-body-util = "*"
wasip3 = "*"
wit-bindgen = "*"
