[package]
name = "collect"
version = "0.1.0"
edition = "2021"
publish = false

[dependencies]
anyhow = "1"
gql_client = "1"
nestify = "*"
serde = { version = "1", features = ["derive"] }
