[package]
name = "calorie_store"
version = "0.1.0"
edition = "2021"
publish = false

[dependencies]
actix-web = { version = "*", default-features = false }
serde = { version = "*", features = ["derive"] }
sqlx = { version = "*", default-features = false, features = ["runtime-tokio", "sqlite", "migrate"] }
tokio = { version = "*", features = ["macros", "rt-multi-thread"] }
