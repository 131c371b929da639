[package]
name = "easydrm"
version = "0.1.0"
edition = "2021"
publish = false

[dependencies]
drm = "=0.14.1"
drm-ffi = "=0.9.1"
gbm = { version = "=0.18.0", default-features = false, features = ["drm-support"] }
glutin = { version = "=0.32.3", default-features = false, features = ["egl"] }
libc = "=0.2.191"
nix = { version = "=0.31.3", features = ["poll", "socket"] }
raw-window-handle = "=0.6.2"
thiserror = "=2.0.21"
