[package]
name = "fogltlogles"
version = "0.1.0"
edition = "2021"
publish = false

[dependencies]
android_logger = "*"
anyhow = "*"
bytemuck = "*"
env_logger = "*"
getset = "*"
gl_generator = "*"
gxhash = "*"
libloading = "*"
linkme = "*"
log = "*"
lru = "*"
multi_log = "*"
parking_lot = "*"
paste = "*"
postcard = { version = "*", features = ["alloc"] }
serde = { version = "*", features = ["derive"] }
smart-default = "*"
spirv-cross2 = "*"
shaderc = "*"
