[package]
name = "kernel_console"
version = "0.1.0"
edition = "2021"
publish = false

[dependencies]
crossbeam-queue = "*"
pc-keyboard = "0.7"
futures-util = "*"
conquer-once = "*"
lazy_static = "*"
spin = "*"
volatile = "0.2"
x86_64 = "*"
wasmi = "*"
shlex = "*"
