[package]
name = "stoat_components"
version = "0.1.0"
edition = "2021"
publish = false

[dependencies]
pulldown-cmark = { version = "=0.13.6", default-features = false }
indexmap = "=2.14.2"
url = "=2.5.8"
regex = "1"
ulid = "=1.2.1"
jiff = "=0.2.39"
rand = "=0.9.5"
