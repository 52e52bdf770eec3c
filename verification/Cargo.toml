[package]
name = "seam_carving"
version = "0.1.0"
edition = "2021"
publish = false

[dependencies]
clap = "2"
image = "0.24"
viuer = "0.6"
