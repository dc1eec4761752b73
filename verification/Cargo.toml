[package]
name = "fselect"
version = "0.3.1"
edition = "2021"
publish = false

[dependencies]
regex = "1"
csv = "1"
serde_json = "1"
humansize = "1"
users = "0.11"
chrono = "0.4"
imagesize = "*"
mp3-metadata = "*"
xattr = "1"
zip = { version = "0.6", default-features = false, features = ["deflate"] }
term = "0.7"
