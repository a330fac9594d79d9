[package]
name = "brokaw"
version = "0.1.0"
edition = "2021"
publish = false

[dependencies]
flate2 = "1.0"
log = "0.4"
native-tls = "0.2"
thiserror = "1.0"

[dev-dependencies]
nom = "5.1"
