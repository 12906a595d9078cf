[package]
name = "fastfood_auth"
version = "0.1.0"
edition = "2021"
publish = false

[dependencies]
async-trait = "0.1"
aws-config = { version = "1", default-features = false, features = ["rt-tokio"] }
aws-sdk-cognitoidentityprovider = { version = "1", default-features = false, features = ["rt-tokio"] }
chrono = "0.4"
rocket = { version = "0.5", features = ["json"] }
rocket_okapi = { version = "*", features = ["swagger"] }
schemars = "0.8"
serde = { version = "1", features = ["derive"] }
tokio = { version = "1", features = ["full"] }
tokio-postgres = "0.7"
