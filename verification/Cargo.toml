[package]
name = "grid_engine"
version = "0.1.0"
edition = "2021"

[dependencies]
crossterm = "0.27"
