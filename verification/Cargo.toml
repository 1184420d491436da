[package]
name = "bellronos"
version = "0.1.0"
edition = "2021"
publish = false

[dependencies]
rustc_apfloat = "*"
serde_json = "*"
reqwest = { version = "*", default-features = false, features = ["blocking", "rustls-tls"] }
