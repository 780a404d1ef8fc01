[package]
name = "beeos_core"
version = "0.1.0"
edition = "2021"
publish = false

[dependencies]
pc-keyboard = "=0.9.0"
noto-sans-mono-bitmap = { version = "=0.3.2", features = ["size_20"] }
x86_64 = { version = "=0.15.5", default-features = false, features = ["instructions"] }
pic8259 = { version = "=0.11.0", default-features = false }
uart_16550 = "=0.8.1"
bootloader_api = "=0.11.17"
spin = "=0.12.3"
