[package]
name = "shades"
version = "0.1.0"
edition = "2021"
publish = false

[dependencies]
aes = "=0.7.5"
aes-gcm = "=0.10.3"
argon2 = "=0.5.3"
block-modes = "=0.8.1"
eframe = { version = "0.29", default-features = false, features = ["default_fonts", "glow", "x11"] }
hex = "=0.4.3"
image = { version = "=0.25.10", default-features = false, features = ["png"] }
password-hash = { version = "=0.5.0", features = ["rand_core"] }
rand = "=0.8.8"
rfd = "0.15"
rpassword = "=7.5.4"
sha2 = "=0.10.9"
