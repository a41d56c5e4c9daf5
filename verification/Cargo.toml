[package]
name = "revs3"
version = "0.1.0"
edition = "2021"
publish = false

[dependencies]
actix-web = { version = "*", default-features = false, features = ["macros"] }
aws-config = "*"
aws-sdk-s3 = "*"
dotenv = "*"
env_logger = "*"
futures = "*"
log = "*"
