[package]
name = "fixer"
version = "0.1.0"
edition = "2021"
publish = false

[dependencies]
argon2 = "0.5"
base64 = "0.22"
getrandom = "0.3"
http = "1"
ipnet = "2"
sha2 = "0.10"
url = "2"
