[package]
name = "js_boundary"
version = "0.1.0"
edition = "2021"
publish = false

[dependencies]
bindgen = { version = "*", default-features = false, features = ["runtime"] }
cc = "1"
