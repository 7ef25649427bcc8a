[package]
name = "gamesync"
version = "0.1.0"
edition = "2021"
publish = false

[dependencies]
sha2 = "*"
zip = { version = "*", default-features = false, features = ["deflate"] }
serde = { version = "*", features = ["derive"] }
serde_json = "*"
reqwest = { version = "*", default-features = false, features = ["stream"] }
tokio = { version = "*", features = ["rt", "macros", "sync"] }
futures = "*"
dirs = "*"
sysinfo = "*"
