[package]
name = "unzipr"
version = "0.1.0"
edition = "2021"
publish = false

[dependencies]
byte-unit = "5"
clap = { version = "4", features = ["derive"] }
hex = "0.4"
indicatif = "0.17"
itertools = "0.13"
num_cpus = "1"
sha2 = "0.10"
thiserror = "1"
tracing = "0.1"
tracing-subscriber = "0.3"
zip = { version = "2", default-features = false, features = ["deflate", "aes-crypto"] }
