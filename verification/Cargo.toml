[package]
name = "create_license"
version = "0.1.0"
edition = "2021"
publish = false

[dependencies]
base64 = "0.21"
openssl = "0.10"
rand = "0.8"
sha3 = "0.10"
substring = "1"
serde = { version = "1", features = ["derive"] }
serde_derive = "1"
serde_json = "1"
lambda_http = "*"
rusoto_core = "0.48"
rusoto_dynamodb = "0.48"
tokio = { version = "1", features = ["macros", "rt-multi-thread"] }
tracing = "0.1"
tracing-subscriber = { version = "0.3", features = ["fmt"] }
