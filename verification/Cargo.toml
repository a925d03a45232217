[package]
name = "oled_desktop_pet"
version = "0.1.0"
edition = "2021"
publish = false

[dependencies]
embedded-graphics = "0.8"
libc = "0.2"
toml = "0.8"
