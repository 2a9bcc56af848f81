[package]
name = "recipe_manager"
version = "0.1.0"
edition = "2021"
publish = false

[dependencies]
anyhow = "1"
colored = "2"
dialoguer = "0.11"
reqwest = { version = "0.12", features = ["blocking"] }
rusqlite = { version = "*", features = ["bundled"] }
scraper = "*"
urlencoding = "2"
