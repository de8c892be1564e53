[package]
name = "sitegen"
version = "0.1.0"
edition = "2021"
publish = false

[dependencies]
comrak = "*"
handlebars = "*"
serde_json = "*"
sha2 = "*"
image = "*"
chrono = "*"
