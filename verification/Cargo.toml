[package]
name = "gabeln_jetzt"
version = "0.1.0"
edition = "2021"
publish = false

[dependencies]
rand = "*"
reqwest = { version = "*", default-features = false, features = ["blocking", "json"] }
serde = { version = "*", features = ["derive"] }
serde_json = "*"
chrono = { version = "*", features = ["serde"] }
atom_syndication = "*"
