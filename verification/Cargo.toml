[package]
name = "usvg-parser"
version = "0.1.0"
edition = "2021"
publish = false

[dependencies]
flate2 = "=1.1.10"
kurbo = "=0.9.5"
log = "=0.4.34"
roxmltree = "=0.18.1"
svgtypes = "=0.11.0"
tiny-skia-path = "=0.10.0"
usvg-tree = "=0.35.0"
