[package]
name = "hocket_store"
version = "0.1.0"
edition = "2021"
publish = false

[dependencies]
hound = "=3.5.1"
muniment = "=0.1.2"
personae = "=0.2.1"

[dev-dependencies]
pollster = "=0.4.0"
