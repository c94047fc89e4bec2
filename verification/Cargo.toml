[package]
name = "casbin_adapter"
version = "0.1.0"
edition = "2021"
publish = false

[dependencies]
async-trait = "*"
casbin = { version = "*", default-features = false, features = ["runtime-tokio"] }
sea-orm = { version = "*", default-features = false, features = ["macros", "runtime-tokio-rustls"] }
tokio = { version = "*", features = ["rt-multi-thread", "macros"] }
