[package]
name = "mijia"
version = "0.1.0"
edition = "2021"
publish = false

[dependencies]
uuid = "*"
dbus = "*"
dbus-tokio = "*"
futures = "*"
itertools = "*"
log = "*"
serde = { version = "1", features = ["derive"] }
serde-xml-rs = "*"
thiserror = "*"
tokio = { version = "1", features = ["rt", "macros"] }
