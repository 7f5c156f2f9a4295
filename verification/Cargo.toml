[package]
name = "code_ledger"
version = "0.1.0"
edition = "2021"
publish = false

[dependencies]
clap = { version = "4", features = ["derive"] }
colored = "2"
sqlx = { version = "0.8", default-features = false, features = ["runtime-tokio", "postgres", "migrate"] }
tabled = "*"
tokio = { version = "1", features = ["macros", "rt-multi-thread"] }
