[package]
name = "lilypalooza_plugins"
version = "0.1.0"
edition = "2021"
publish = false

[dependencies]
clap-sys = "*"
core-foundation = "*"
directories = "*"
libloading = "*"
raw-window-handle = "*"
ron = "*"
serde = { version = "1", features = ["derive"] }
serde_json = "1"
thiserror = "*"
vst3 = "*"
