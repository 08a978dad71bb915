[package]
name = "parameter_substitution"
version = "0.1.0"
edition = "2021"
publish = false

[dependencies]
serde_json = "1"
snafu = "0.8"
