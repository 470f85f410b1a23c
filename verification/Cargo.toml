[package]
name = "portal_setting"
version = "0.1.0"
edition = "2021"
publish = false

[dependencies]
anyhow = "1"
tokio = { version = "1", features = ["macros", "rt-multi-thread", "sync", "time"] }
zbus = { version = "4", default-features = false, features = ["tokio"] }
