[package]
name = "mc_playtime"
version = "0.1.0"
edition = "2021"
publish = false

[dependencies]
md5 = "*"
serde_json = "*"
reqwest = { version = "*", default-features = false, features = ["blocking"] }
