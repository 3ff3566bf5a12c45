[package]
name = "fix"
version = "0.1.0"
edition = "2021"
publish = false

[dependencies]
async-openai = "0.10"
clap = { version = "4", features = ["derive"] }
dotenv = "0.15"
serde_json = "1"
tokio = { version = "1", features = ["macros", "rt-multi-thread"] }
