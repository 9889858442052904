[package]
name = "record_producer"
version = "0.1.0"
edition = "2021"
publish = false

[dependencies]
rdkafka = "=0.39.0"
schema_registry_converter = { version = "=5.0.0", default-features = false, features = ["blocking"] }
