[package]
name = "github_streak_stats_lib"
version = "0.1.0"
edition = "2021"
publish = false

[dependencies]
anyhow = "=1.0.104"
clap = { version = "=4.6.7", features = ["derive", "env"] }
colorful = "=0.3.2"
graphql_client = { version = "=0.14.0", features = ["reqwest"] }
jiff = "=0.2.38"
reqwest = { version = "=0.11.27", features = ["json"] }
serde = { version = "=1.0.229", features = ["derive"] }
term-table = "=1.4.0"
termbg = "=0.6.2"
tokio = { version = "=1.54.1", features = ["macros", "rt-multi-thread"] }
