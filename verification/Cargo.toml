[package]
name = "krypton_rag"
version = "0.1.0"
edition = "2021"
publish = false

[dependencies]
serde_json = "*"
uuid = { version = "*", features = ["v4"] }
serde = { version = "*", features = ["derive"] }
tokio = { version = "*", features = ["rt-multi-thread", "macros"] }
actix-web = { version = "*", default-features = false, features = ["macros"] }
actix-cors = "*"
actix-multipart = "*"
argon2 = "*"
chrono = { version = "*", default-features = false, features = ["clock", "std"] }
dotenv = "*"
futures = "*"
jsonwebtoken = "*"
lettre = { version = "*", default-features = false, features = ["smtp-transport", "builder", "tokio1"] }
rand_core = { version = "*", features = ["getrandom"] }
reqwest = { version = "*", default-features = false, features = ["json"] }
