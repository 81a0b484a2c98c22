[package]
name = "anyinput"
version = "0.1.0"
edition = "2021"
publish = false

[dependencies]
uuid = { version = "1", features = ["v4"] }
syn = { version = "1", features = ["full", "fold", "extra-traits"] }
quote = "1"
proc-macro2 = "1"
proc-macro-error = "1"

[dev-dependencies]
anyhow = "1"
ndarray = "0.15"
