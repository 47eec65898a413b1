[package]
name = "itemdb"
version = "0.1.0"
edition = "2021"
publish = false

[dependencies]
anyhow = "1"
atty = "0.2"
chrono = "0.4"
clap = { version = "4", features = ["derive"] }
futures = "0.3"
serde = { version = "1", features = ["derive"] }
serde_json = "1"
sqlx = { version = "0.7", default-features = false, features = ["mysql", "runtime-tokio", "chrono"] }
tokio = { version = "1", features = ["macros", "rt"] }
