[package]
name = "guild_scrape"
version = "0.1.0"
edition = "2021"
publish = false

[dependencies]
serde = { version = "*", features = ["derive"] }
simd-json = "*"
tokio = { version = "*", features = ["rt-multi-thread", "macros"] }
twilight-http = "*"
twilight-model = "*"
