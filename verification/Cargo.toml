[package]
name = "todo_store"
version = "0.1.0"
edition = "2021"
publish = false

[dependencies]
actix-cors = "0.7"
actix-multipart = { version = "0.6", default-features = false }
actix-web = { version = "4", default-features = false, features = ["macros"] }
futures = "0.3"
serde = { version = "1", features = ["derive"] }
serde_json = "1"
uuid = { version = "1", features = ["v4", "serde"] }
