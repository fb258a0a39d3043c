[package]
name = "robinrust"
version = "0.1.0"
edition = "2021"
publish = false

[dependencies]
base64 = "*"
dotenv = "*"
ed25519-dalek = "*"
reqwest = { version = "*", features = ["json"] }
rust_decimal = { version = "*", features = ["serde-with-float", "serde-with-str"] }
serde = { version = "*", features = ["derive"] }
serde_json = "*"
tokio = { version = "*", features = ["macros", "rt-multi-thread", "time"] }
uuid = { version = "*", features = ["v4"] }
