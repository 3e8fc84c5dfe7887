[package]
name = "chatbix"
version = "0.1.0"
edition = "2021"
publish = false

[dependencies]
chrono = "*"
rand = "*"
rust-crypto = "*"
serde = { version = "*", features = ["derive"] }
serde_json = "*"
iron = "*"
bodyparser = "*"
urlencoded = "*"
router = "*"
mount = "*"
staticfile = "*"
persistent = "*"
postgres = "*"
r2d2 = "*"
r2d2_postgres = "*"
dotenv = "*"
