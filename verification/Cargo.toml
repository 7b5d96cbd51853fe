[package]
name = "unkprox"
version = "0.1.0"
edition = "2021"
publish = false

[dependencies]
android_logger = "*"
cstr_core = "*"
jni = "*"
lazy_static = "*"
libc = "*"
log = "*"
socket2 = "*"
