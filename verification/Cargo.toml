[package]
name = "kourier"
version = "0.1.0"
edition = "2021"
publish = false

[dependencies]
base64 = "0.22"
chrono = "0.4"
cxx-qt = "0.7"
cxx-qt-lib = "0.7"
cxx-qt-lib-extras = "0.7"
dirs = "5"
futures-util = "0.3"
qrcode = { version = "0.14", default-features = false, features = ["svg"] }
reqwest = { version = "0.12", default-features = false }
scraper = { version = "*", default-features = false }
tokio = { version = "1", features = ["rt-multi-thread", "time", "sync", "macros"] }
uuid = { version = "1", features = ["v4"] }
