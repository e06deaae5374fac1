[package]
name = "chillscapes"
version = "0.1.0"
edition = "2021"
publish = false

[dependencies]
image = { version = "=0.25.10", default-features = false, features = ["png"] }
kludgine = "=0.11.0"
once_cell = "=1.21.4"
rand = "=0.7.3"
rodio = "=0.11.0"
webbrowser = "=0.5.5"
