[package]
name = "process_manager"
version = "0.1.0"
edition = "2021"
publish = false

[dependencies]
itertools = "0.11"
rand = "0.8"
sysinfo = { version = "0.29", default-features = false }
eframe = { version = "0.22", default-features = false, features = ["glow", "default_fonts"] }
egui = "0.22"
env_logger = { version = "0.10", default-features = false }
winapi = { version = "0.3", features = ["fileapi", "handleapi", "ioapiset", "winioctl", "winnt", "minwindef", "ntdef"] }
