[package]
name = "audio_mixer"
version = "0.1.0"
edition = "2021"
publish = false

[dependencies]
base64 = "*"
console_error_panic_hook = "*"
