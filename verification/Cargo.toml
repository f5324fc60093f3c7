[package]
name = "popcorn"
version = "0.1.0"
edition = "2021"
publish = false

[dependencies]
anyhow = "1"
chrono = "0.4"
clap = { version = "3", features = ["derive"] }
console = "0.15"
dirs = "4"
flate2 = "1"
md5 = "0.7"
notify = "4"
progress_bar = "*"
regex = "1"
reqwest = { version = "0.11", default-features = false, features = ["json"] }
serde = "1"
serde_derive = "1"
serde_json = "1"
tar = "0.4"
tokio = { version = "1", features = ["macros", "rt-multi-thread"] }
webbrowser = "0.8"
zip-extract = "0.1"
