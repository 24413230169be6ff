[package]
name = "iter-python"
version = "0.1.0"
edition = "2021"
publish = false

[dependencies]
join-lazy-fmt = "0.9"
