[package]
name = "esm_checker"
version = "0.1.0"
edition = "2021"
publish = false

[dependencies]
serde_json = "*"
semver = "*"
tokio = { version = "*", features = ["macros", "rt-multi-thread"] }
reqwest = { version = "*", default-features = false }
futures = "*"
aws-config = "*"
aws-sdk-dynamodb = "*"
aws-types = "*"
chrono = "*"
clap = { version = "*", features = ["derive"] }
dotenv = "*"
uuid = { version = "*", features = ["v4"] }
hubcaps = { version = "*", default-features = false }
