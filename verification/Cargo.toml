[package]
name = "sunshine"
version = "0.2.0"
edition = "2021"
publish = false

[dependencies]
chrono = "*"
directories-next = "*"
reqwest = { version = "*", default-features = false, features = ["blocking"] }
structopt = "*"
sunrise = "*"
