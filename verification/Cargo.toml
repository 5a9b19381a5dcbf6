[package]
name = "nommie"
version = "0.1.0"
edition = "2021"
publish = false

[dependencies]
rand = "0.8"
uuid = { version = "1", features = ["v4", "serde"] }
serde = { version = "1", features = ["derive"] }
serde_json = "1"
chrono = { version = "0.4", features = ["serde"] }
jsonwebtoken = "9"
anyhow = "1"
actix-web = { version = "4", default-features = false, features = ["macros"] }
actix-cors = "0.7"
http = "0.2"
futures-util = "0.3"
sea-orm = { version = "1", default-features = false, features = ["macros", "with-uuid", "with-chrono", "with-json", "sqlx-postgres", "runtime-tokio-rustls"] }
sea-orm-migration = { version = "1", default-features = false, features = ["sqlx-postgres", "runtime-tokio-rustls"] }
tokio = { version = "1", features = ["macros", "rt-multi-thread", "sync"] }
tracing = "0.1"
tracing-subscriber = { version = "0.3", features = ["env-filter", "json"] }
tracing-actix-web = "0.7"
dotenv = "0.15"
