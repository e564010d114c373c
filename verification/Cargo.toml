[package]
name = "geopl"
version = "0.1.0"
edition = "2021"
publish = false

[dependencies]
geo = "*"
bytemuck = "*"
kml = "*"
zip = { version = "*", default-features = false, features = ["deflate"] }
