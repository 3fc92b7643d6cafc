[package]
name = "kei"
version = "0.1.0"
edition = "2021"
publish = false

[dependencies]
align_ext = "*"
device-id = "*"
int-to-c-enum = "*"
zune-inflate = { version = "*", default-features = false, features = ["gzip"] }
lending-iterator = "*"
no_std_io2 = "*"
bitflags = "1"
spin = "*"
log = "*"
owo-colors = "*"
inventory = "*"
