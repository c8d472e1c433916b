[package]
name = "pg_models"
version = "0.1.0"
edition = "2021"
publish = false

[dependencies]
bevy = { version = "0.14", default-features = false, features = ["bevy_asset", "bevy_state"] }
bevy_common_assets = { version = "0.11", features = ["json"] }
rand = "0.8"
serde = { version = "1", features = ["derive"] }
