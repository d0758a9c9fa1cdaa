[package]
name = "cardano_lightning_client"
version = "0.1.0"
edition = "2021"
publish = false

[dependencies]
ciborium = "0.2"
hex = "0.4"
serde_json = "1"
reqwest = { version = "0.12", default-features = false, features = ["json"] }
tokio = { version = "1", features = ["macros", "rt-multi-thread", "time"] }
whisky = { version = "1", default-features = false, features = ["csl"] }
