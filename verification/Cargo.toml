[package]
name = "tuxscaling"
version = "0.1.0"
edition = "2021"
publish = false

[dependencies]
anyhow = "=1.0.104"
ash = "=0.38.0"
bytemuck = "=1.25.2"
clap = { version = "=4.6.7", features = ["derive"] }
egui = { version = "=0.31.1", default-features = false }
libloading = "=0.8.9"
serde = { version = "=1.0.229", features = ["derive"] }
thiserror = "=2.0.21"
toml = "=0.8.23"
x11rb = { version = "=0.13.2", features = ["dl-libxcb", "randr", "xfixes"] }
