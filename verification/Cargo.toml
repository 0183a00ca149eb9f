[package]
name = "displayconfig_mutter"
version = "0.1.0"
edition = "2021"
publish = false

[dependencies]
anyhow = "*"
clap = { version = "*", features = ["derive"] }
serde = { version = "*", features = ["derive"] }
serde_repr = "*"
tabled = "*"
tokio = { version = "*", features = ["macros", "rt-multi-thread"] }
zbus = "*"
