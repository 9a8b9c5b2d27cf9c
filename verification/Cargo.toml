[package]
name = "varmint"
version = "0.1.0"
edition = "2021"
publish = false

[dependencies]
vm-fdt = "=0.3.0"
font8x8 = "=0.3.1"
serde = { version = "=1.0.229", features = ["derive"] }
toml = "=1.1.8"
serde_json = "=1.0.154"
uuid = { version = "=1.29.0", features = ["v4"] }
libc = "=0.2.191"
crossterm = "=0.29.0"
zstd = "=0.14.3"
rtrb = "=0.4.1"
applevisor = "=1.0.0"
applevisor-sys = "=1.0.0"
winit = "=0.30.13"
