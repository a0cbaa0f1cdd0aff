[package]
name = "karma_calculator"
version = "0.1.0"
edition = "2021"
publish = false

[dependencies]
phantom-zone = { version = "=0.1.0", features = ["non_interactive_mp"] }
rand = "=0.8.8"
rayon = "=1.12.0"
