[package]
name = "black_hole"
version = "0.1.0"
edition = "2021"
publish = false

[dependencies]
color-eyre = "=0.6.5"
glam = "*"
manifest-dir-macros = "=0.1.20"
stardust-xr-fusion = "=0.43.2"
stardust-xr-molecules = "=0.29.0"
tokio = { version = "=1.53.2", features = ["macros", "rt", "signal"] }
tween = "=2.2.0"
