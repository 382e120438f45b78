[package]
name = "gamescope"
version = "0.1.0"
edition = "2021"
publish = false

[dependencies]
nix = { version = "*", features = ["signal"] }
perfetto-sdk = "*"
png = "*"
signal-hook = "*"
smithay = { version = "0.7", default-features = false, features = ["backend_drm", "backend_egl", "backend_gbm", "backend_libinput", "backend_session_libseat", "backend_udev", "backend_winit", "desktop", "renderer_gl", "wayland_frontend", "xwayland"] }
smithay-drm-extras = "*"
tracing = "0.1"
tracing-subscriber = { version = "0.3", features = ["env-filter"] }
wayland-protocols = { version = "0.32", features = ["server"] }
wayland-server = "0.31"
winit = "*"
x11rb = { version = "0.13", features = ["res"] }
xkeysym = "0.2"
