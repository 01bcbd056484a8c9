[package]
name = "gl_runtime"
version = "0.1.0"
edition = "2021"
publish = false

[dependencies]
num-bigint = "0.4"
libloading = "0.8"
