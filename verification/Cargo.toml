[package]
name = "ccgui"
version = "0.5.2"
edition = "2021"
publish = false

[dependencies]
async-channel = "2"
gtk4 = { version = "*", features = ["v4_10"] }
pulldown-cmark = "*"
serde_json = "1"
webkit6 = "*"
