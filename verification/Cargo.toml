[package]
name = "cifar_ten"
version = "0.1.0"
edition = "2021"
publish = false

[dependencies]
rand = "*"
ndarray = "*"
image = { version = "*", default-features = false }
minifb = "*"
curl = "*"
flate2 = "*"
tar = "*"
pbr = "*"
reqwest = { version = "*", default-features = false, features = ["blocking"] }
