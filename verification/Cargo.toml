[package]
name = "scd"
version = "0.1.0"
edition = "2021"
publish = false

[dependencies]
bcrypt = "*"
getrandom = "*"
uuid = { version = "*", features = ["v4", "v5"] }
serde = { version = "*", features = ["derive"] }
serde_json = "*"
rusqlite = { version = "*", features = ["bundled"] }
reqwest = "*"
tokio = { version = "*", features = ["time", "macros", "rt-multi-thread"] }
calamine = "*"
dotenvy = "*"
