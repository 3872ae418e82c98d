[package]
name = "partial_object_codec"
version = "0.1.0"
edition = "2021"
publish = false

[dependencies]
serde_json = "*"
chrono = "*"
arri_client = "*"
