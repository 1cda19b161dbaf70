[package]
name = "mindlink"
version = "0.1.0"
edition = "2021"
publish = false

[dependencies]
anyhow = "*"
chrono = "*"
clap = { version = "*", features = ["derive"] }
dirs = "*"
dotenvy = "*"
futures-util = "*"
rand = "*"
reqwest = { version = "*", default-features = false, features = ["json", "stream", "rustls-tls"] }
reqwest-eventsource = "*"
rusqlite = { version = "*", features = ["bundled"] }
serde = { version = "*", features = ["derive"] }
serde_json = "*"
tokio = { version = "*", features = ["macros", "rt-multi-thread", "time"] }
