[package]
name = "board_game"
version = "0.1.0"
edition = "2021"

[dependencies]
rand = "*"
internal-iterator = "*"
num-traits = "*"
