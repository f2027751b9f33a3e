[package]
name = "expense_ledger"
version = "0.1.0"
edition = "2021"
publish = false

[dependencies]
rust_decimal = "1"
uuid = { version = "1", features = ["v4", "serde"] }
chrono = { version = "0.4", features = ["serde"] }
serde = { version = "1", features = ["derive"] }
serde_json = "1"
thiserror = "1"
axum = "0.6"
tokio = { version = "1", features = ["full"] }
sea-orm = { version = "0.12", default-features = false, features = ["macros", "with-json", "with-chrono", "with-rust_decimal", "with-uuid", "sqlx-postgres", "runtime-tokio-rustls"] }
sea-orm-migration = { version = "0.12", default-features = false, features = ["sqlx-postgres", "runtime-tokio-rustls"] }
sea-query = "0.30"
async-trait = "0.1"
jsonwebtoken = "8"
dotenv = "0.15"
