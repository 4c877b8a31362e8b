[package]
name = "pico_usb_console"
version = "0.1.0"
edition = "2021"
publish = false

[dependencies]
cortex-m = "=0.7.10"
embassy-executor = "=0.10.0"
embassy-sync = "=0.8.0"
embassy-time = "=0.5.1"
embassy-usb = "=0.6.0"
heapless = "=0.9.3"
panic-persist = { version = "=0.3.0", features = ["utf8"] }
static_cell = "=2.1.1"
