[package]
name = "trackstamp"
version = "0.1.0"
edition = "2021"
publish = false

[dependencies]
clap = { version = "4", features = ["derive"] }
euclid = "0.22"
geoutils = "0.5"
gpx = "*"
svg = "*"
time = { version = "0.3", features = ["formatting"] }
