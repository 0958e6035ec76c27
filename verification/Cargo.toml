[package]
name = "tensorlake_rootfs"
version = "0.1.0"
edition = "2021"
publish = false

[dependencies]
libc = "0.2"
mshv-ioctls = "*"
seccompiler = "0.5"
serde = { version = "1", features = ["derive"] }
serde_json = "1"
uuid = { version = "1", features = ["v4"] }
vmm-sys-util = "*"
