[package]
name = "ssd1351"
version = "0.1.0"
edition = "2021"
publish = false

[dependencies]
display-interface = "*"
display-interface-spi = "*"
embedded-hal = "*"
embedded-hal-async = "*"
embedded-graphics-core = "*"
embassy-time = "*"
