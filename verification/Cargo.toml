[package]
name = "spell-framework"
version = "0.1.0"
edition = "2021"
publish = false

[dependencies]
smithay-client-toolkit = { version = "*", default-features = false, features = ["calloop"] }
slint = { version = "*", default-features = false, features = ["compat-1-2", "std"] }
tracing = "*"
tracing-subscriber = { version = "*", features = ["env-filter"] }
