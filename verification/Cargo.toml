[package]
name = "s3util"
version = "0.1.0"
edition = "2021"
publish = false

[dependencies]
bytesize = "*"
aws-config = { version = "*", default-features = false }
aws-sdk-s3 = { version = "*", default-features = false }
tokio = { version = "*", features = ["rt-multi-thread"] }
clap = { version = "*", features = ["derive"] }
csv = "*"
serde = { version = "*", features = ["derive"] }
dialoguer = "*"
