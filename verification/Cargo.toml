[package]
name = "extractous"
version = "0.1.0"
edition = "2021"
publish = false

[dependencies]
calamine = "=0.36.1"
jni = "=0.21.1"
memmap2 = "=0.9.11"
pdf-extract = "=0.12.1"
quick-xml = "=0.30.0"
rayon = "=1.12.0"
