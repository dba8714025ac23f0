[package]
name = "erigui_widgets"
version = "0.1.0"
edition = "2021"
publish = false

[dependencies]
chrono = "=0.4.45"
dirs = "=5.0.1"
thiserror = "=1.0.69"
gl = "=0.14.0"
smallvec = "1"
