[package]
name = "starry_mm"
version = "0.1.0"
edition = "2021"
publish = false

[dependencies]
axalloc = "0.3.0-preview.3"
axerrno = "0.2"
axfs-ng = "0.3.0-preview.3"
axhal = { version = "0.3.0-preview.3", features = ["paging"] }
axsync = "0.3.0-preview.3"
axtask = "0.3.0-preview.3"
bitflags = "2"
enum_dispatch = "0.3"
hashbrown = "0.16"
kspin = "0.1"
linux-raw-sys = { version = "0.12", features = ["general"] }
memory_addr = "0.4"
memory_set = "0.4"
starry-process = "0.2"
starry-vm = "0.3"
