[package]
name = "cairo_trace"
version = "0.1.0"
edition = "2021"
publish = false

[dependencies]
cairo-air = "=1.0.1"
stwo-cairo-adapter = "=1.0.1"
stwo-cairo-prover = "=1.0.1"
stwo-cairo-utils = "=1.0.1"
stwo = "=2.3.0"
clap = "*"
log = "*"
serde_json = "*"
thiserror = "*"
