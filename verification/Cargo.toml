[package]
name = "halycon"
version = "0.1.0"
edition = "2021"
publish = false

[dependencies]
arrayvec = { version = "0.7", default-features = false }
byteorder = { version = "1", default-features = false }
spin = "0.9"
lazy_static = { version = "1", features = ["spin_no_std"] }
log = "0.4"
fatfs = "0.3"
mbrman = "*"
fs-err = "*"
