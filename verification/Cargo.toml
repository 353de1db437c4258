[package]
name = "gud_gadget"
version = "0.1.0"
edition = "2021"
publish = false

[dependencies]
anyhow = "1"
bitflags = "2"
bytemuck = "1"
bytes = "1"
clap = { version = "4", features = ["derive"] }
ctrlc = "3"
lz4 = "*"
serde = { version = "1", features = ["derive"] }
ssmarshal = "1"
tracing = "0.1"
tracing-subscriber = { version = "0.3", features = ["env-filter"] }
usb-gadget = "*"
minifb = "*"
