[package]
name = "timestamper"
version = "0.1.0"
edition = "2021"
publish = false

[dependencies]
rusqlite = { version = "*", features = ["bundled"] }
futures = "*"
log = "*"
rdkafka = { version = "*", default-features = false }
rusoto_core = { version = "*", default-features = false, features = ["rustls"] }
rusoto_credential = "*"
rusoto_kinesis = { version = "*", default-features = false, features = ["rustls"] }
