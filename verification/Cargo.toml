[package]
name = "archpkg"
version = "0.1.0"
edition = "2021"
publish = false

[dependencies]
chrono = "0.4"
eframe = { version = "0.36", default-features = false, features = ["glow", "x11", "wayland", "default_fonts"] }
egui = "0.36"
env_logger = "0.11"
ksni = "0.3"
libc = "0.2"
log = "0.4"
nix = { version = "0.30", features = ["term"] }
notify = "8"
notify-rust = "4"
open = "5"
tokio = { version = "1", features = ["rt-multi-thread", "macros", "sync", "time"] }
