[package]
name = "vublk"
version = "0.1.0"
edition = "2021"
publish = false

[dependencies]
libc = "=0.2.190"
log = "=0.4.34"
nix = { version = "=0.31.3", features = ["ioctl"] }
vhost = { version = "=0.17.0", features = ["vhost-user-backend"] }
vhost-user-backend = "=0.23.0"
virtio-bindings = "=0.2.7"
virtio-queue = "=0.18.0"
vm-memory = { version = "=0.18.0", features = ["backend-mmap", "backend-atomic", "backend-bitmap"] }
vmm-sys-util = "=0.15.0"
