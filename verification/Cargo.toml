[package]
name = "steamlocate"
version = "0.1.0"
edition = "2021"
publish = false

[dependencies]
crc = "3"
keyvalues-parser = "*"
keyvalues-serde = "*"
serde = { version = "1", features = ["derive"] }
home = "*"
winreg = "*"
