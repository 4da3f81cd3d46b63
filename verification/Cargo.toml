[package]
name = "textgen"
version = "0.1.0"
edition = "2021"
publish = false

[dependencies]
anyhow = "=1.0.104"
regex = "=1.13.1"
rust-bert = "0.16"
serde = { version = "=1.0.229", features = ["derive"] }
tch = "*"
tokio = { version = "=1.54.1", features = ["macros", "rt-multi-thread", "sync"] }
warp = "=0.3.7"
