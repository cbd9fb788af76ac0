[package]
name = "xiangqi_cli"
version = "0.1.0"
edition = "2021"
publish = false

[dependencies]
anyhow = "=1.0.104"
async-trait = "=0.1.92"
crossterm = "=0.29.0"
dirs = "=7.0.0"
tokio = { version = "=1.53.2", features = ["io-std", "io-util", "macros", "process", "rt-multi-thread", "sync", "time"] }
toml = "=1.1.7"
