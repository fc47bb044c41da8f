[package]
name = "calendar_engine"
version = "0.1.0"
edition = "2021"
publish = false

[dependencies]
chrono = { version = "=0.4.45", default-features = false, features = ["std", "clock"] }
dioxus = { version = "0.7", default-features = false, features = ["macro", "html", "signals", "hooks"] }
js-sys = "=0.3.106"
