[package]
name = "servoshell"
version = "0.1.0"
edition = "2021"
publish = false

[dependencies]
url = "=2.5.0"
open = "=5.4.5"
log = "=0.4.34"

[dev-dependencies]
treediff = { version = "*", default-features = false }
