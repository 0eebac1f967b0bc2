[package]
name = "hexbot"
version = "0.1.0"
edition = "2021"
publish = false

[dependencies]
ashscript-types = "=0.5.0"
hecs = "=0.11.2"
hexx = "=0.25.0"
rand = "=0.10.3"
uuid = { version = "=1.27.0", features = ["v4"] }
