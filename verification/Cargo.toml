[package]
name = "live-mix"
version = "0.1.0"
edition = "2021"
publish = false

[dependencies]
crossbeam-channel = "0.5"
gstreamer = "0.18"
gstreamer-video = "0.18"
gtk = "0.15"
