[package]
name = "blog_store"
version = "0.1.0"
edition = "2021"
publish = false

[dependencies]
actix-web = "4"
actix-rt = "2"
diesel = { version = "2", features = ["postgres", "r2d2"] }
dotenv = "0.15"
env_logger = "*"
serde = { version = "1", features = ["derive"] }
