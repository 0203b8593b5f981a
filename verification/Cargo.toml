[package]
name = "vfio_benchmark"
version = "0.1.0"
edition = "2021"
publish = false

[dependencies]
pci-driver = "*"
