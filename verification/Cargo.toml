[package]
name = "nvim_gtk"
version = "0.1.0"
edition = "2021"
publish = false

[dependencies]
unicode-width = "=0.1.14"
unicode-segmentation = "=1.13.3"
percent-encoding = "=2.3.2"
rmpv = "=1.3.1"
htmlescape = "=0.3.1"
regex = "1"
