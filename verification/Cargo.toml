[package]
name = "computational_graphs"
version = "0.1.0"
edition = "2021"
publish = false

[dependencies]
pollster = "0.3"
