[package]
name = "aethervk_device"
version = "0.1.0"
edition = "2021"
publish = false

[dependencies]
ash = "0.38"
vk-mem = "0.4"
bitflags = "2"
bytemuck = "1"
dashmap = "6"
hashbrown = "0.15"
heapless = "*"
spin = "0.9"
spirv = "0.3"
ouroboros = "0.18"
function_name = "0.3"
