[package]
name = "usda_plants"
version = "0.1.0"
edition = "2021"
publish = false

[dependencies]
csv = "*"
reqwest = { version = "*", default-features = false, features = ["json"] }
rusqlite = { version = "*", features = ["bundled"] }
serde = { version = "*", features = ["derive"] }
serde_derive = "*"
serde_json = "*"
tokio = { version = "*", features = ["macros", "rt-multi-thread"] }
