[package]
name = "chat_service"
version = "0.1.0"
edition = "2021"
publish = false

[dependencies]
crossterm = "*"
regex = "1"
unicode-width = "*"
