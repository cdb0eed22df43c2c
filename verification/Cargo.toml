[package]
name = "lcore"
version = "0.1.0"
edition = "2021"
publish = false

[dependencies]
clap = "4"
inventory = "0.3"
mlua = { version = "0.10", features = ["lua54", "vendored"] }
proc-macro2 = "1"
quote = "1"
syn = { version = "2", features = ["full"] }
thiserror = "2"
toml = "0.8"
