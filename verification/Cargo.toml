[package]
name = "vidfetch"
version = "0.1.0"
edition = "2021"
publish = false

[dependencies]
actix-files = "*"
actix-web = "*"
rustube = "*"
serde = { version = "*", features = ["derive"] }
serde_json = "*"
youtube_dl = "*"
