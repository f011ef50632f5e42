[package]
name = "cb_bench"
version = "0.1.0"
edition = "2021"
publish = false

[dependencies]
catboost = "*"
jemallocator = "0.5"
prost = "0.13"
tokio = { version = "1", features = ["macros", "rt-multi-thread", "time"] }
tonic = "0.12"
