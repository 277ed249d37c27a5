[package]
name = "smart_jump"
version = "0.1.0"
edition = "2021"
publish = false

[dependencies]
dioxus = { version = "*", default-features = false, features = ["macro", "html", "signals", "hooks"] }
log = "0.4"
