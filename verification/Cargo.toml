[package]
name = "rnc"
version = "0.1.0"
edition = "2021"
publish = false

[dependencies]
clap = { version = "4", features = ["derive"] }
regex = "1"
rustls = "0.23"
rustls-native-certs = "0.7"
rustls-pemfile = "2"
