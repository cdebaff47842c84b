[package]
name = "nerva"
version = "0.1.0"
edition = "2021"
publish = false

[dependencies]
serde_json = "=1.0.151"
serde = { version = "=1.0.229", features = ["derive"] }
reqwest = { version = "=0.13.5", features = ["blocking", "json"] }
rustyline = "=18.0.1"
colored = "=3.1.1"
clearscreen = "=5.0.0"
dotenv = "=0.15.0"
chrono = "=0.4.45"
sqlx = { version = "=0.9.0", default-features = false, features = ["postgres", "runtime-tokio", "derive", "chrono"] }
