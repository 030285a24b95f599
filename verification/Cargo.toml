[package]
name = "kornia_wgpu"
version = "0.1.0"
edition = "2021"
publish = false

[dependencies]
wgpu = { version = "=28.0.0", features = ["noop"] }
kornia-image = "=0.1.14"
kornia-tensor = "=0.1.14"
bytemuck = { version = "=1.25.2", features = ["derive", "min_const_generics"] }
thiserror = "=2.0.21"
pollster = "=0.4.0"
