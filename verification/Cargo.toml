[package]
name = "hotkey_engine"
version = "0.1.0"
edition = "2021"
publish = false

[dependencies]
global-hotkey = "*"
arboard = { version = "*", default-features = false }
enigo = "*"
serde = { version = "*", features = ["derive"] }
serde_json = "*"
reqwest = { version = "*", default-features = false, features = ["blocking", "json"] }
