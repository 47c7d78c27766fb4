[package]
name = "vdovitsa"
version = "0.1.0"
edition = "2021"
publish = false

[dependencies]
clap = { version = "4", features = ["derive"] }
console-subscriber = "*"
path-clean = "1"
reqwest = { version = "0.12", default-features = false, features = ["rustls-tls"] }
rusqlite = { version = "*", features = ["bundled"] }
scraper = "*"
tokio = { version = "1", features = ["macros", "rt-multi-thread", "sync"] }
url = "2"
