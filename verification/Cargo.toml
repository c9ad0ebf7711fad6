[package]
name = "bokeh_helpers"
version = "0.1.0"
edition = "2021"
publish = false

[dependencies]
mime_guess = "2"
tao = "*"
tokio = { version = "1", features = ["sync"] }
wry = "*"
