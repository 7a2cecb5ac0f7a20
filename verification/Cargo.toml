[package]
name = "ui_batch"
version = "0.1.0"
edition = "2021"
publish = false

[dependencies]
smallvec = "=1.16.2"
wgpu = "=0.16.3"
futures = "=0.3.34"
bytemuck = { version = "=1.25.2", features = ["derive"] }
slotmap = "=1.1.1"
