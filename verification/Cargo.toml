[package]
name = "mod_registry"
version = "0.1.0"
edition = "2021"
publish = false

[dependencies]
actix-web = "4"
futures = "0.3"
serde = { version = "1", features = ["derive"] }
sqlx = { version = "0.8", default-features = false, features = ["postgres", "runtime-tokio"] }
