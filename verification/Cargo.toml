[package]
name = "leaderboard_card"
version = "0.1.0"
edition = "2021"
publish = false

[dependencies]
dotenvy = "0.15"
once_cell = "1"
reqwest = "0.12"
serde = { version = "1", features = ["derive"] }
serenity = "0.12"
skia-safe = "*"
sqlx = { version = "0.8", default-features = false, features = ["sqlite", "runtime-tokio", "migrate"] }
tokio = { version = "1", features = ["macros", "rt-multi-thread"] }
