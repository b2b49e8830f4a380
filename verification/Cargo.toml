[package]
name = "tacos"
version = "0.1.0"
edition = "2021"
publish = false

[dependencies]
piston_window = "0.105"
find_folder = "0.3"
rand = "0.7"
