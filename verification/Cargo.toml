[package]
name = "scalar"
version = "0.1.0"
edition = "2021"
publish = false

[dependencies]
fastrand = "2"
fxhash = "0.2"
rand = "0.9"
strum = { version = "0.27", features = ["derive"] }
fastapprox = "0.3"
rayon = "1"
image = { version = "0.25", default-features = false, features = ["png"] }
