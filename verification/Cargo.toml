[package]
name = "uranus"
version = "0.1.0"
edition = "2021"
publish = false

[dependencies]
regex = "=1.13.1"
same-file = "=1.0.6"
log = "=0.4.34"
log4rs = "=1.4.0"
rfd = { version = "=0.12.1", default-features = false, features = ["xdg-portal"] }
