[package]
name = "cairo_cuda_witness"
version = "0.1.0"
edition = "2021"
publish = false

[dependencies]
stwo = "=2.1.0"
stwo-constraint-framework = "=2.1.0"
itertools = "=0.12.1"
tracing = "=0.1.44"
