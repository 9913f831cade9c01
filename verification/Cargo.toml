[package]
name = "trdelnik"
version = "0.1.0"
edition = "2021"
publish = false

[dependencies]
syn = { version = "1", features = ["full", "extra-traits"] }
quote = "1"
proc-macro2 = "1"
heck = "0.4"
anchor-syn = "0.29.0"
clap = { version = "4", features = ["derive"] }
anyhow = "1"
