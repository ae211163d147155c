[package]
name = "ftdi_nusb"
version = "0.1.0"
edition = "2021"
publish = false

[dependencies]
nusb = { version = "0.2", features = ["smol"] }
futures-lite = "2"
futures-timer = "3"
log = "0.4"
wasm-bindgen = "0.2"
wasm-bindgen-futures = "0.4"
web-sys = { version = "0.3", features = ["Window", "Navigator", "Usb", "UsbDevice", "UsbDeviceFilter", "UsbDeviceRequestOptions"] }
