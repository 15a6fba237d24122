[package]
name = "kync"
version = "0.1.0"
edition = "2021"
publish = false

[dependencies]
asn1_der = "0.6"
libloading = "0.5"
