[package]
name = "overlay"
version = "0.1.0"
edition = "2021"
publish = false

[dependencies]
rand = "0.7"
tokio = { version = "1", features = ["fs", "io-util", "rt-multi-thread", "macros"] }
reqwest = { version = "0.12", features = ["stream"] }
futures-util = "0.3"
log = "=0.4.20"
async-log = "2"
femme = "1"
tar = "0.4"
flate2 = "1"

[dev-dependencies]
tempdir = "0.3"
