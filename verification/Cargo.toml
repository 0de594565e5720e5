[package]
name = "key_mapper"
version = "0.1.0"
edition = "2021"
publish = false

[dependencies]
ggez = "0.5.1"
gfx_core = "0.9"
gfx_device_gl = "0.16"
imgui = "0.1"
imgui-gfx-renderer = "0.1"
