[package]
name = "drinkbot"
version = "0.1.0"
edition = "2021"
publish = false

[dependencies]
anyhow = "1"
dotenvy = "*"
lazy_static = "1"
poise = "*"
thecocktaildb-rs = "*"
tokio = { version = "1", features = ["macros", "rt-multi-thread"] }
tracing = "*"
