[package]
name = "aether_win32"
version = "0.1.0"
edition = "2021"
publish = false

[dependencies]
tracing = "0.1"
tracing-subscriber = { version = "0.3", features = ["env-filter", "fmt", "local-time"] }
tracing-appender = "0.2"
time = { version = "0.3", features = ["formatting", "parsing", "local-offset", "macros"] }
dirs = "5"
