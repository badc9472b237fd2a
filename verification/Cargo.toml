[package]
name = "fmr"
version = "0.1.0"
edition = "2021"
publish = false

[dependencies]
sha2 = "0.10"
natord = "1.0"
zip = "0.6"
image = "0.24"
tokio = { version = "1", features = ["rt-multi-thread", "macros", "sync", "time", "fs"] }
walkdir = "2"
