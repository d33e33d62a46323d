[package]
name = "qrself"
version = "0.1.0"
edition = "2021"
publish = false

[dependencies]
qrcode = { version = "*", default-features = false }
image = { version = "*", default-features = false, features = ["png"] }
base64 = "*"
hyper = { version = "0.14", features = ["full"] }
tokio = { version = "*", features = ["rt-multi-thread", "macros", "net", "time"] }
