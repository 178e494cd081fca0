[package]
name = "that_sky_ahook"
version = "0.1.0"
edition = "2021"
publish = false

[dependencies]
egui = "0.36"
egui-wgpu = "0.36"
jni = "0.22"
libc = "0.2"
log = "0.4"
wgpu = "30"
