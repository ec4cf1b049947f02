[package]
name = "nftee"
version = "0.1.0"
edition = "2021"
publish = false

[dependencies]
actix-web = { version = "4", default-features = false, features = ["macros"] }
dotenvy = "0.15"
ethers = { version = "2", default-features = false }
lazy_static = "1"
serde = { version = "1", features = ["derive"] }
