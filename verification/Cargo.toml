[package]
name = "game_reward"
version = "0.1.0"
edition = "2021"
publish = false

[dependencies]
soroban-sdk = "*"
