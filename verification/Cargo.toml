[package]
name = "github-actions-runner-aws"
version = "0.1.0"
edition = "2021"
publish = false

[dependencies]
base64 = "=0.22.1"
hex = "=0.4.3"
hmac = "=0.12.1"
sha2 = "=0.10.9"
jsonwebtoken = "=9.3.1"
serde = { version = "=1.0.229", features = ["derive"] }
serde_json = { version = "=1.0.154", features = ["preserve_order"] }
aws_lambda_events = { version = "=0.15.1", default-features = false, features = ["apigw"] }
lambda_runtime = "=0.13.0"
reqwest = { version = "=0.12.28", default-features = false, features = ["blocking", "json", "rustls-tls"] }
tokio = { version = "=1.54.1", features = ["macros", "rt"] }

[dev-dependencies]
num-bigint = "=0.4.8"
