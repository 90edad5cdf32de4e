[package]
name = "harvester"
version = "0.1.0"
edition = "2021"
publish = false

[dependencies]
aws-config = "*"
aws_lambda_events = "*"
aws-sdk-dynamodb = "*"
aws-sdk-mediaconvert = "*"
aws-sdk-mediapackage = "*"
aws-sdk-s3 = "*"
lambda_runtime = "*"
serde = { version = "*", features = ["derive"] }
serde_json = "*"
tokio = { version = "*", features = ["macros", "rt"] }
