[package]
name = "attached"
version = "0.1.0"
edition = "2021"
publish = false

[dependencies]
once_cell = "1"
parking_lot = "0.12"
static_init = "1"
