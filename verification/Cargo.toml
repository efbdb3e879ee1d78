[package]
name = "inside_vm"
version = "0.1.0"
edition = "2021"
publish = false

[dependencies]
raw-cpuid = "=11.6.0"
quanta = "=0.13.0"
