[package]
name = "wikiracer"
version = "0.1.0"
edition = "2021"
publish = false

[dependencies]
inquire = "*"
regex = "*"
reqwest = { version = "*", features = ["blocking"] }
scraper = "*"
