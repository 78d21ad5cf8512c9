[package]
name = "stream_graph"
version = "0.1.0"
edition = "2021"
publish = false

[dependencies]
anyhow = "1"
glib = "0.17"
gstreamer = "0.20"
