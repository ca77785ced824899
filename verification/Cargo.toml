[package]
name = "polymarket_kalshi_arbitrage_bot"
version = "0.1.0"
edition = "2021"
publish = false

[dependencies]
anyhow = "*"
async-trait = "*"
chrono = "*"
clap = { version = "*", features = ["derive"] }
dotenv = "*"
env_logger = "*"
hex = "*"
hmac = "*"
log = "*"
reqwest = { version = "*", default-features = false, features = ["json"] }
serde = { version = "*", features = ["derive"] }
serde_json = "*"
sha2 = "*"
sqlx = { version = "*", default-features = false, features = ["runtime-tokio", "sqlite", "macros"] }
tokio = { version = "*", features = ["macros", "rt-multi-thread", "time", "signal"] }
toml = "*"
