[package]
name = "otteramp_dsp"
version = "0.1.0"
edition = "2021"
publish = false

[dependencies]
heapless = "=0.8.0"
micromath = "=2.1.0"
fixed = "=1.29.0"
pio = "=0.3.0"
embedded-graphics = "=0.8.2"
embedded-hal-async = "=1.0.0"
embassy-time = "=0.5.1"
embassy-sync = "=0.8.0"
embassy-futures = "=0.1.2"
embassy-usb = "=0.6.0"
embassy-executor = "=0.10.0"
# The last feature lets the HAL build for hosts as well.
embassy-rp = { version = "=0.10.0", features = ["rp235xa", "time-driver", "critical-section-impl", "_test"] }
cortex-m = "=0.7.10"
static_cell = "=2.1.1"
