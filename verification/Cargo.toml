[package]
name = "minestar"
version = "0.1.0"
edition = "2021"
publish = false

[dependencies]
hashbrown = "=0.17.1"
rand = "=0.8.8"
noise = "=0.7.0"
