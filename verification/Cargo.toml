[package]
name = "cufx-vio"
version = "0.1.0"
edition = "2021"
publish = false

[dependencies]
bincode = "2"
cu29 = "*"
cu-sensor-payloads = "*"
cu-spatial-payloads = "*"
kornia-3d = "*"
kornia-algebra = "*"
kornia-image = "*"
kornia-imgproc = "*"
kornia-sensors = "*"
kornia-slam = "*"
serde = { version = "1", features = ["derive"] }
thiserror = "2"
