[package]
name = "nlp_dispatch"
version = "0.1.0"
edition = "2021"
publish = false

[dependencies]
actix-cors = "*"
actix-web = "*"
chrono = "*"
config = "*"
dotenv = "*"
rust-bert = "*"
serde = { version = "*", features = ["derive"] }
threadpool = "*"
