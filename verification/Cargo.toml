[package]
name = "process_muxer"
version = "0.1.0"
edition = "2021"
publish = false

[dependencies]
console = "0.15"
libc = "0.2"
mio = { version = "0.8", features = ["os-poll", "os-ext"] }
regex = "1"
signal-hook = "0.3"
signal-hook-mio = { version = "0.2", features = ["support-v0_8"] }
slab = "0.4"
