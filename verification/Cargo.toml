[package]
name = "rissue"
version = "0.1.0"
edition = "2021"
publish = false

[dependencies]
sha2 = "0.10"
base64ct = { version = "1.6", features = ["alloc"] }
serde = { version = "1", features = ["derive"] }
jsonwebtoken = { version = "9", default-features = false }
actix-web = { version = "4", default-features = false, features = ["macros"] }
sqlx = { version = "0.8", default-features = false, features = ["sqlite", "runtime-tokio"] }
mime = "0.3"
