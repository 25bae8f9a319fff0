[package]
name = "luci"
version = "0.1.0"
edition = "2021"
publish = false

[dependencies]
serde-hjson = "*"
