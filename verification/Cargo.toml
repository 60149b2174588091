[package]
name = "async-io"
version = "1.0.0"
edition = "2021"
publish = false

[dependencies]
atomic-waker = "1"
cfg-if = "1"
concurrent-queue = "2"
futures-io = "0.3"
futures-lite = "1"
io-uring = "0.5"
libc = "0.2"
log = "0.4"
once_cell = "1"
parking = "2"
polling = "2"
rustix = { version = "0.38", features = ["fs"] }
slab = "0.4"
socket2 = { version = "0.5", features = ["all"] }
waker-fn = "1"
wasm-bindgen = "0.2"
web-sys = { version = "0.3", features = ["Window"] }
wepoll-sys-stjepang = "1"
winapi = { version = "0.3", features = ["winsock2", "ioapiset", "winnt"] }
