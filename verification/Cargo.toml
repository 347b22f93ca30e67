[package]
name = "fbconsole"
version = "0.1.0"
edition = "2021"
publish = false

[dependencies]
noto-sans-mono-bitmap = { version = "=0.3.2", features = ["unicode-specials"] }
spin = "=0.12.3"
lazy_static = "=1.5.1"
bootloader_api = "=0.11.17"
good_memory_allocator = "=0.1.7"
