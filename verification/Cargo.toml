[package]
name = "sea_migrations"
version = "0.1.0"
edition = "2021"
publish = false

[dependencies]
sea-orm = { version = "=0.4.2", default-features = false, features = ["macros", "mock"] }
async-trait = "=0.1.92"
