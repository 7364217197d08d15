[package]
name = "teensy4_selfrebootor"
version = "0.1.0"
edition = "2021"
publish = false

[dependencies]
log = "0.4"
teensy4-bsp = "0.4"
usb-device = "0.2"
usbd-hid = "0.6"
