[package]
name = "shogitest"
version = "0.1.5"
edition = "2021"
publish = false

[dependencies]
memchr = "2"
libc = "0.2"
chrono = "0.4"
crossbeam-channel = "0.5"
log = "0.4"
flexi_logger = "0.29"
rand = "0.9"
rand_chacha = "0.9"
wait-timeout = "0.2"
