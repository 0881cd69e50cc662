[package]
name = "discord_md"
version = "2.0.0"
edition = "2021"
publish = false

[dependencies]
nom = "7"
derive_more = { version = "0.99", default-features = false, features = ["display", "from", "into", "into_iterator"] }
