[package]
name = "zeitig"
version = "0.1.0"
edition = "2021"
publish = false

[dependencies]
directories = "*"
druid = "0.7"
log = "0.4"
rmp-serde = "*"
serde = { version = "1", features = ["derive", "rc"] }
