[package]
name = "ruthenium_ldap"
version = "0.1.0"
edition = "2021"
publish = false

[dependencies]
futures = "*"
ldap3_proto = "*"
reqwest = { version = "*", default-features = false }
tokio = { version = "*", features = ["net", "io-util", "rt", "rt-multi-thread", "macros", "signal"] }
tokio-util = { version = "*", features = ["codec"] }
