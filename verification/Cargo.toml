[package]
name = "webhook_relay"
version = "0.1.0"
edition = "2021"
publish = false

[dependencies]
serde_json = "1"
serde = { version = "1", features = ["derive"] }
log = "0.4"
actix-web = { version = "4", default-features = false, features = ["macros"] }
tokio = { version = "1", default-features = false, features = ["rt"] }
reqwest = { version = "0.12", default-features = false, features = ["json"] }
