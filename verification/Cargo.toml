[package]
name = "echo_rsvp"
version = "0.1.0"
edition = "2021"
publish = false

[dependencies]
crossterm = "*"
objc2 = "*"
objc2-foundation = "*"
objc2-avf-audio = "*"
pulldown-cmark = "*"
readability = { version = "*", default-features = false }
serde = { version = "1", features = ["derive"] }
toml = "*"
ureq = "*"
url = "2"
