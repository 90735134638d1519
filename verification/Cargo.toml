[package]
name = "symphonia"
version = "0.1.0"
edition = "2021"
publish = false

[dependencies]
hashbrown = "=0.17.1"
embedded-io = { version = "=0.7.1", features = ["alloc"] }
async-trait = "=0.1.92"
cmsis_dsp = "=0.2.0"
num-complex = { version = "=0.4.6", default-features = false }
