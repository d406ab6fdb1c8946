[package]
name = "metro_m4_ext"
version = "0.1.0"
edition = "2021"
publish = false

[dependencies]
adafruit-alphanum4 = "=0.1.2"
cortex-m = "=0.7.9"
embedded-hal = "=0.2.7"
ht16k33 = "=0.4.0"
metro_m4 = { version = "=0.19.4", features = ["usb"] }
usb-device = "=0.3.2"
usbd-serial = "=0.2.2"
