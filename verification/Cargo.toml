[package]
name = "g_flite"
version = "0.1.0"
edition = "2021"
publish = false

[dependencies]
hound = "3"
chrono = { version = "0.4", default-features = false, features = ["std"] }
serde_json = "1"
tempfile = "3"
