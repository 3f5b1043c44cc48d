[package]
name = "iot"
version = "0.1.0"
edition = "2021"

[dependencies]
uuid = "=1.27.0"
trouble-host = "=0.8.0"
embassy-futures = "=0.1.2"
embassy-time = "=0.5.1"
log = "=0.4.34"
static_cell = "=2.1.1"
bt-hci = "=0.10.1"
