[package]
name = "pinora"
version = "0.1.0"
edition = "2021"
publish = false

[dependencies]
png = "=0.17.16"
fs2 = "=0.4.3"
global-hotkey = "=0.9.0"
xcap = "*"
