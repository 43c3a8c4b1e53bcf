[package]
name = "uf_crsf"
version = "0.1.0"
edition = "2021"
publish = false

[dependencies]
crc = "=3.4.0"
heapless = "=0.8.0"
hash32 = "=0.3.1"
embedded-io = "=0.6.1"
embedded-io-async = "=0.6.1"
