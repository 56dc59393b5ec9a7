[package]
name = "line_editor"
version = "0.1.0"
edition = "2021"
publish = false

[dependencies]
crossterm = "*"
unicode-segmentation = "*"
unicode-width = "*"
