[package]
name = "spam_bot_mvp"
version = "0.1.0"
edition = "2021"
publish = false

[dependencies]
rusqlite = { version = "=0.40.2", features = ["bundled"] }
rlua = "=0.20.1"
teloxide = { version = "=0.12.2", features = ["macros"] }
tokio = { version = "=1.53.2", features = ["macros", "rt-multi-thread"] }
dptree = "=0.3.0"
log = "=0.4.34"
env_logger = "=0.11.11"
dotenv = "=0.15.0"
takecell = "=0.1.1"

[dev-dependencies]
tempfile = "=3.27.0"
