[package]
name = "battlesnake_logic"
version = "0.1.0"
edition = "2021"
publish = false

[dependencies]
pathfinding = "=4.16.0"
serde_json = "=1.0.151"
