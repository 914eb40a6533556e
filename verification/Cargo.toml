[package]
name = "buffalo_core"
version = "0.1.0"
edition = "2021"
publish = false

[dependencies]
regex = "=1.13.1"
serde = { version = "=1.0.229", features = ["derive"] }
toml = "=0.8.23"
zbus = "=5.19.0"
tokio = { version = "=1.54.1", features = ["macros", "rt-multi-thread"] }
x11 = { version = "2", features = ["xlib"] }
