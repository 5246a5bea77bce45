[package]
name = "site_stack"
version = "0.1.0"
edition = "2021"
publish = false

[dependencies]
select = "0.6"
reqwest = "0.12"
tokio = { version = "1", features = ["macros", "rt-multi-thread"] }
