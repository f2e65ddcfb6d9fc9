[package]
name = "histlog"
version = "2.1.0"
edition = "2021"
publish = false

[dependencies]
chrono = "=0.4.45"
crossbeam-channel = "=0.5.17"
hdrhistogram = "=7.6.0"
rand = "=0.8.8"
