[package]
name = "orbix"
version = "0.1.0"
edition = "2021"
publish = false

[dependencies]
md5 = "*"
bzip2 = "*"
tar = "*"
reqwest = { version = "*", features = ["blocking"] }
indicatif = "*"
iana-time-zone = "*"
