[package]
name = "pipulse"
version = "0.1.0"
edition = "2021"
publish = false

[dependencies]
embedded-graphics = "0.8"
embedded-graphics-simulator = "0.7"
embedded-hal = "1"
embedded-icon = "*"
linux-embedded-hal = "0.4"
mipidsi = "0.9"
mousefood = "*"
ratatui = "*"
sysinfo = "*"
thiserror = "2"
