[package]
name = "gramhive"
version = "0.1.0"
edition = "2021"
publish = false

[dependencies]
regex = "=1.13.1"
htmlescape = "=0.3.1"
dptree = "=0.5.1"
tokio = { version = "=1.53.2", features = ["rt", "rt-multi-thread", "macros", "signal", "sync"] }
grammers-client = { version = "=0.7.0", features = ["html"] }
dialoguer = "=0.12.0"
anyhow = "=1.0.104"
async-trait = "=0.1.92"
