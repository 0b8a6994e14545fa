[package]
name = "wasdf"
version = "0.1.0"
edition = "2021"
publish = false

[dependencies]
fuzzy-matcher = "0.3"
syntect = { version = "5", default-features = false, features = ["default-fancy"] }
image = { version = "0.25", default-features = false, features = ["png", "jpeg", "gif"] }
ratatui = "0.29"
crossterm = "0.28"
libc = "0.2"
libloading = "0.8"
steel-core = "*"
chafa-syms-rs = "*"
