[package]
name = "dora_radio_service"
version = "0.1.0"
edition = "2021"
publish = false

[dependencies]
base64 = "0.13"
serial = "0.4"
chrono = "0.4"
getopts = "0.2"
