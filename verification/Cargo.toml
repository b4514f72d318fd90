[package]
name = "reedy"
version = "0.1.0"
edition = "2021"
publish = false

[dependencies]
atom_syndication = "*"
base64 = "*"
chrono = "*"
dirs = "*"
html2text = "*"
reqwest = { version = "*", default-features = false, features = ["blocking"] }
rss = "*"
serde = { version = "*", features = ["derive"] }
serde_json = "*"
