[package]
name = "rillet-core"
version = "0.1.0"
edition = "2021"
publish = false

[dependencies]
arc-swap = "=1.9.3"
async-broadcast = "=0.7.2"
async-channel = "=2.5.0"
crossterm = "=0.29.0"
eframe = { version = "=0.37.0", default-features = false, features = ["default_fonts", "glow", "x11"] }
event-listener = "=5.4.2"
futures = "=0.3.34"
futures-lite = "=2.6.1"
im = "=15.1.0"
proc-macro2 = "=1.0.107"
quote = "=1.0.47"
ratatui = { version = "=0.30.2", default-features = false, features = ["crossterm"] }
smol = "=2.0.2"
smol_str = "=0.3.7"
syn = { version = "=2.0.119", features = ["full", "extra-traits"] }
