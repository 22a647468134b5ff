[package]
name = "jambot"
version = "0.1.0"
edition = "2021"
publish = false

[dependencies]
url = "2"
dotenv = "0.15"
tokio = { version = "1", features = ["macros", "rt-multi-thread"] }
reqwest = { version = "0.11", default-features = false, features = ["rustls-tls"] }
poise = "0.5"
songbird = { version = "0.3", features = ["builtin-queue"] }
