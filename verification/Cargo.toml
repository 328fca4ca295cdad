[package]
name = "shunit"
version = "0.1.0"
edition = "2021"
publish = false

[dependencies]
anyhow = "1"
chrono = { version = "0.4", default-features = false, features = ["clock", "std"] }
stderrlog = "0.5"
structopt = "0.3"
tokio = { version = "1", features = ["io-util", "macros", "process", "rt-multi-thread"] }
yaserde = "0.8"
yaserde_derive = "0.8"
